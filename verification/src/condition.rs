//! The condition of an `if` line, and the types that it compares.

use vstd::prelude::*;
use vstd::string::StringSliceAdditionalSpecFns;
use crate::bytes::{
    contains, ends_with, find, first_occurrence, has_prefix, has_suffix, occurs_at, starts_with,
};
use crate::infer::{infer_type, inferred_type};
use crate::keywords::lemma_if_then;
use crate::space::{strip, trim};
use crate::table::VarTable;
use crate::types::VarType;

verus! {

/// A comparison operator. The operators stand here in the order in which a
/// condition is searched for them: each two-byte sign that begins with `>`
/// or `<` comes before the one-byte sign that it begins with.
#[derive(Clone, Copy, Debug, PartialEq, Eq, Structural)]
pub enum Comparison {
    GreaterOrEqual,
    LessOrEqual,
    Greater,
    Less,
    Equal,
    NotEqual,
}

impl Comparison {
    /// The operator's sign.
    pub open spec fn symbol(self) -> Seq<u8> {
        match self {
            Comparison::GreaterOrEqual => ">=".spec_bytes(),
            Comparison::LessOrEqual => "<=".spec_bytes(),
            Comparison::Greater => ">".spec_bytes(),
            Comparison::Less => "<".spec_bytes(),
            Comparison::Equal => "==".spec_bytes(),
            Comparison::NotEqual => "!=".spec_bytes(),
        }
    }

    /// The operator's sign.
    pub fn sign(self) -> (r: &'static [u8])
        ensures
            r@ == self.symbol(),
    {
        match self {
            Comparison::GreaterOrEqual => ">=".as_bytes(),
            Comparison::LessOrEqual => "<=".as_bytes(),
            Comparison::Greater => ">".as_bytes(),
            Comparison::Less => "<".as_bytes(),
            Comparison::Equal => "==".as_bytes(),
            Comparison::NotEqual => "!=".as_bytes(),
        }
    }
}

/// The condition of the trimmed line `t`: where `t` begins with `if ` and
/// ends with `then`, what stands between `if` and `then`, trimmed.
pub open spec fn condition(t: Seq<u8>) -> Option<Seq<u8>> {
    if starts_with(t, "if ".spec_bytes()) && ends_with(t, "then".spec_bytes()) {
        Some(trim(t.subrange("if".spec_bytes().len() as int, t.len() - "then".spec_bytes().len())))
    } else {
        None
    }
}

/// The operator at which a condition is split: the first of `>=`, `<=`,
/// `>`, `<`, `==` and `!=`, in this order, that stands in it.
pub open spec fn operator_of(cond: Seq<u8>) -> Option<Comparison> {
    if contains(cond, Comparison::GreaterOrEqual.symbol()) {
        Some(Comparison::GreaterOrEqual)
    } else if contains(cond, Comparison::LessOrEqual.symbol()) {
        Some(Comparison::LessOrEqual)
    } else if contains(cond, Comparison::Greater.symbol()) {
        Some(Comparison::Greater)
    } else if contains(cond, Comparison::Less.symbol()) {
        Some(Comparison::Less)
    } else if contains(cond, Comparison::Equal.symbol()) {
        Some(Comparison::Equal)
    } else if contains(cond, Comparison::NotEqual.symbol()) {
        Some(Comparison::NotEqual)
    } else {
        None
    }
}

/// The two operands of a condition that holds `op`: what stands before the
/// first occurrence of the sign and what stands after it, both trimmed.
pub open spec fn operands(cond: Seq<u8>, op: Comparison) -> (Seq<u8>, Seq<u8>) {
    let k = first_occurrence(cond, op.symbol())->0;
    (trim(cond.take(k)), trim(cond.skip(k + op.symbol().len())))
}

/// The two types that the condition of the trimmed line `t` compares, where
/// they differ: `t` has a condition, the condition has an operator, both
/// operands have a type, and the two types are not the same.
pub open spec fn mismatch(t: Seq<u8>, variables: Map<Seq<u8>, VarType>) -> Option<
    (VarType, VarType),
> {
    match condition(t) {
        Some(cond) => match operator_of(cond) {
            Some(op) => {
                let (left, right) = operands(cond, op);
                match (inferred_type(left, variables), inferred_type(right, variables)) {
                    (Some(a), Some(b)) => if a != b {
                        Some((a, b))
                    } else {
                        None
                    },
                    _ => None,
                }
            },
            None => None,
        },
        None => None,
    }
}

/// A line that begins with `if ` and ends with `then` has room for both.
pub proof fn lemma_header_length(t: Seq<u8>)
    requires
        starts_with(t, "if ".spec_bytes()),
        ends_with(t, "then".spec_bytes()),
    ensures
        t.len() >= 7,
        "if".spec_bytes().len() == 2,
        "then".spec_bytes().len() == 4,
{
    lemma_if_then();
    // The `t` of `then` is neither the `i`, the `f` nor the space of `if `.
    let head = t.subrange(0, 3);
    let tail = t.subrange(t.len() - 4, t.len() as int);
    assert(head[0] != tail[0] && head[1] != tail[0] && head[2] != tail[0]);
}

/// The condition of the trimmed line `t`.
pub fn parse_condition<'a>(t: &'a [u8]) -> (r: Option<&'a [u8]>)
    ensures
        match r {
            Some(cond) => condition(t@) == Some(cond@),
            None => condition(t@) is None,
        },
{
    if has_prefix(t, "if ".as_bytes()) && has_suffix(t, "then".as_bytes()) {
        proof {
            lemma_header_length(t@);
        }
        let from = "if".as_bytes().len();
        let to = t.len() - "then".as_bytes().len();
        Some(strip(&t[from..to]))
    } else {
        None
    }
}

/// The operator at which the condition `cond` is split, and the index of
/// its first occurrence.
pub fn find_operator(cond: &[u8]) -> (r: Option<(Comparison, usize)>)
    ensures
        match r {
            Some((op, k)) => {
                &&& operator_of(cond@) == Some(op)
                &&& first_occurrence(cond@, op.symbol()) == Some(k as int)
                &&& occurs_at(cond@, op.symbol(), k as int)
            },
            None => operator_of(cond@) is None,
        },
{
    if let Some(k) = find(cond, Comparison::GreaterOrEqual.sign()) {
        Some((Comparison::GreaterOrEqual, k))
    } else if let Some(k) = find(cond, Comparison::LessOrEqual.sign()) {
        Some((Comparison::LessOrEqual, k))
    } else if let Some(k) = find(cond, Comparison::Greater.sign()) {
        Some((Comparison::Greater, k))
    } else if let Some(k) = find(cond, Comparison::Less.sign()) {
        Some((Comparison::Less, k))
    } else if let Some(k) = find(cond, Comparison::Equal.sign()) {
        Some((Comparison::Equal, k))
    } else if let Some(k) = find(cond, Comparison::NotEqual.sign()) {
        Some((Comparison::NotEqual, k))
    } else {
        None
    }
}

/// The two types that the condition of the trimmed line `t` compares, where
/// they differ.
pub fn check_condition(t: &[u8], variables: &VarTable) -> (r: Option<(VarType, VarType)>)
    ensures
        r == mismatch(t@, variables@),
{
    let cond = match parse_condition(t) {
        Some(cond) => cond,
        None => {
            return None;
        },
    };
    let (op, k) = match find_operator(cond) {
        Some(found) => found,
        None => {
            return None;
        },
    };
    let width = op.sign().len();
    let end = cond.len();
    let left = strip(&cond[0..k]);
    let right = strip(&cond[k + width..end]);
    match (infer_type(left, variables), infer_type(right, variables)) {
        (Some(a), Some(b)) => if a != b {
            Some((a, b))
        } else {
            None
        },
        _ => None,
    }
}

} // verus!
