//! White space, and trimming it off the ends of a byte string.
//!
//! The white-space characters are those of Unicode's `White_Space`
//! property, recognised by their UTF-8 encodings: one byte for the ASCII
//! ones, two or three bytes for the others.

use vstd::prelude::*;

verus! {

/// U+0009 to U+000D, and U+0020.
pub open spec fn is_ascii_space(b: u8) -> bool {
    (0x09 <= b <= 0x0d) || b == 0x20
}

/// The encodings of U+0085 and U+00A0.
pub open spec fn is_space_pair(a: u8, b: u8) -> bool {
    a == 0xc2 && (b == 0x85 || b == 0xa0)
}

/// The encodings of U+1680, U+2000 to U+200A, U+2028, U+2029, U+202F,
/// U+205F and U+3000.
pub open spec fn is_space_triple(a: u8, b: u8, c: u8) -> bool {
    ||| a == 0xe1 && b == 0x9a && c == 0x80
    ||| a == 0xe2 && b == 0x80 && (0x80 <= c <= 0x8a || c == 0xa8 || c == 0xa9 || c == 0xaf)
    ||| a == 0xe2 && b == 0x81 && c == 0x9f
    ||| a == 0xe3 && b == 0x80 && c == 0x80
}

/// The length of the white-space character that `s` begins with; 0 where it
/// begins with none.
pub open spec fn leading_space(s: Seq<u8>) -> int {
    if s.len() >= 1 && is_ascii_space(s[0]) {
        1
    } else if s.len() >= 2 && is_space_pair(s[0], s[1]) {
        2
    } else if s.len() >= 3 && is_space_triple(s[0], s[1], s[2]) {
        3
    } else {
        0
    }
}

/// The length of the white-space character that `s` ends with; 0 where it
/// ends with none.
pub open spec fn trailing_space(s: Seq<u8>) -> int {
    let n = s.len() as int;
    if n >= 1 && is_ascii_space(s[n - 1]) {
        1
    } else if n >= 2 && is_space_pair(s[n - 2], s[n - 1]) {
        2
    } else if n >= 3 && is_space_triple(s[n - 3], s[n - 2], s[n - 1]) {
        3
    } else {
        0
    }
}

/// `s` without the white space it begins with.
pub open spec fn trim_start(s: Seq<u8>) -> Seq<u8>
    decreases s.len(),
{
    let n = leading_space(s);
    if n == 0 {
        s
    } else {
        trim_start(s.skip(n))
    }
}

/// `s` without the white space it ends with.
pub open spec fn trim_end(s: Seq<u8>) -> Seq<u8>
    decreases s.len(),
{
    let n = trailing_space(s);
    if n == 0 {
        s
    } else {
        trim_end(s.take(s.len() - n))
    }
}

/// `s` without the white space at either end.
pub open spec fn trim(s: Seq<u8>) -> Seq<u8> {
    trim_end(trim_start(s))
}

/// The number of bytes of white space that `s` begins with: the column at
/// which its trimmed content starts.
pub open spec fn indent(s: Seq<u8>) -> int {
    s.len() - trim_start(s).len()
}

/// The length of the white-space character that `s` begins with.
pub fn leading_space_len(s: &[u8]) -> (n: usize)
    ensures
        n == leading_space(s@),
        n <= s@.len(),
{
    let len = s.len();
    if len >= 1 && (s[0] == 0x20 || (0x09 <= s[0] && s[0] <= 0x0d)) {
        1
    } else if len >= 2 && s[0] == 0xc2 && (s[1] == 0x85 || s[1] == 0xa0) {
        2
    } else if len >= 3 && wide_space(s[0], s[1], s[2]) {
        3
    } else {
        0
    }
}

/// The length of the white-space character that `s` ends with.
pub fn trailing_space_len(s: &[u8]) -> (n: usize)
    ensures
        n == trailing_space(s@),
        n <= s@.len(),
{
    let len = s.len();
    if len >= 1 && (s[len - 1] == 0x20 || (0x09 <= s[len - 1] && s[len - 1] <= 0x0d)) {
        1
    } else if len >= 2 && s[len - 2] == 0xc2 && (s[len - 1] == 0x85 || s[len - 1] == 0xa0) {
        2
    } else if len >= 3 && wide_space(s[len - 3], s[len - 2], s[len - 1]) {
        3
    } else {
        0
    }
}

/// Are these three bytes a white-space character?
pub fn wide_space(a: u8, b: u8, c: u8) -> (r: bool)
    ensures
        r == is_space_triple(a, b, c),
{
    (a == 0xe1 && b == 0x9a && c == 0x80) || (a == 0xe2 && b == 0x80 && ((0x80 <= c && c <= 0x8a)
        || c == 0xa8 || c == 0xa9 || c == 0xaf)) || (a == 0xe2 && b == 0x81 && c == 0x9f) || (a
        == 0xe3 && b == 0x80 && c == 0x80)
}

/// `s` without the white space it begins with.
pub fn strip_start(s: &[u8]) -> (r: &[u8])
    ensures
        r@ == trim_start(s@),
        r@.len() <= s@.len(),
{
    let mut i: usize = 0;
    assert(s@.skip(0) =~= s@);
    loop
        invariant
            i <= s.len(),
            trim_start(s@) == trim_start(s@.skip(i as int)),
        decreases s.len() - i,
    {
        let n = leading_space_len(&s[i..s.len()]);
        proof {
            assert(s@.skip(i as int).skip(n as int) =~= s@.skip(i + n));
        }
        if n == 0 {
            return &s[i..s.len()];
        }
        i += n;
    }
}

/// `s` without the white space it ends with.
pub fn strip_end(s: &[u8]) -> (r: &[u8])
    ensures
        r@ == trim_end(s@),
        r@.len() <= s@.len(),
{
    let mut k: usize = s.len();
    assert(s@.take(k as int) =~= s@);
    loop
        invariant
            k <= s.len(),
            trim_end(s@) == trim_end(s@.take(k as int)),
        decreases k,
    {
        let n = trailing_space_len(&s[0..k]);
        proof {
            assert(s@.take(k as int).take(k - n) =~= s@.take(k - n));
        }
        if n == 0 {
            return &s[0..k];
        }
        k -= n;
    }
}

/// `s` without the white space at either end.
pub fn strip(s: &[u8]) -> (r: &[u8])
    ensures
        r@ == trim(s@),
        r@.len() <= s@.len(),
{
    strip_end(strip_start(s))
}

} // verus!
