//! Cutting a document into lines.

use vstd::prelude::*;
use crate::bytes::{find_byte, offset_of};

verus! {

/// The byte that ends a line.
pub const LINE_FEED: u8 = 0x0a;

/// The byte that may stand before a line feed.
pub const CARRIAGE_RETURN: u8 = 0x0d;

/// `s` without the carriage return it ends with, if it ends with one.
pub open spec fn without_carriage_return(s: Seq<u8>) -> Seq<u8> {
    if s.len() > 0 && s.last() == CARRIAGE_RETURN {
        s.drop_last()
    } else {
        s
    }
}

/// The lines of a document. A line ends at a line feed, or at the end of
/// the document; the line feed, and one carriage return before it, are not
/// part of the line. Nothing follows the last line feed: a document that
/// ends with one has no empty last line, and the empty document has no
/// lines.
pub open spec fn lines(doc: Seq<u8>) -> Seq<Seq<u8>>
    decreases doc.len(),
{
    if doc.len() == 0 {
        Seq::empty()
    } else {
        let k = offset_of(doc, LINE_FEED) as int;
        if k >= doc.len() {
            seq![doc]
        } else {
            seq![without_carriage_return(doc.take(k))] + lines(doc.skip(k + 1))
        }
    }
}

/// What a vector of lines holds.
pub open spec fn line_views(v: Seq<&[u8]>) -> Seq<Seq<u8>> {
    Seq::new(v.len(), |i: int| v[i]@)
}

/// `s` without the carriage return it ends with.
pub fn strip_carriage_return(s: &[u8]) -> (r: &[u8])
    ensures
        r@ == without_carriage_return(s@),
{
    let n = s.len();
    if n > 0 && s[n - 1] == CARRIAGE_RETURN {
        &s[0..n - 1]
    } else {
        s
    }
}

/// The lines of `doc`, in order.
pub fn split_lines<'a>(doc: &'a [u8]) -> (out: Vec<&'a [u8]>)
    ensures
        line_views(out@) == lines(doc@),
{
    let mut out: Vec<&'a [u8]> = Vec::new();
    let mut pos: usize = 0;
    assert(doc@.skip(0) =~= doc@);
    while pos < doc.len()
        invariant
            pos <= doc.len(),
            lines(doc@) == line_views(out@) + lines(doc@.skip(pos as int)),
        decreases doc.len() - pos,
    {
        let rest = &doc[pos..doc.len()];
        let k = find_byte(rest, LINE_FEED);
        if k >= rest.len() {
            out.push(rest);
            pos = doc.len();
        } else {
            let line = strip_carriage_return(&rest[0..k]);
            out.push(line);
            assert(rest@.skip(k + 1) =~= doc@.skip(pos + k + 1));
            pos = pos + k + 1;
        }
    }
    out
}

} // verus!
