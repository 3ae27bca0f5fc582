//! Declarations, and the types of expressions.

use vstd::prelude::*;
use vstd::string::StringSliceAdditionalSpecFns;
use crate::bytes::{find_byte, has_prefix, offset_of, starts_with};
use crate::space::{strip, trim};
use crate::table::VarTable;
use crate::types::{integer_literal, is_integer_literal, is_quoted, quoted, VarType};

verus! {

/// The byte `=`.
pub const EQUALS_SIGN: u8 = 0x3d;

/// The type of the expression `expr`, where it can be told: a quoted
/// expression is a string, an integer literal is an integer, and the name of
/// a declared variable has that variable's type. White space around the
/// expression does not count.
pub open spec fn inferred_type(expr: Seq<u8>, variables: Map<Seq<u8>, VarType>) -> Option<
    VarType,
> {
    let e = trim(expr);
    if is_quoted(e) {
        Some(VarType::Str)
    } else if is_integer_literal(e) {
        Some(VarType::Int)
    } else if variables.dom().contains(e) {
        Some(variables[e])
    } else {
        None
    }
}

/// The name and the value of the declaration that the trimmed line `t`
/// holds: `t` begins with `let `, and what follows holds exactly one `=`,
/// with the name before it and the value after it, both trimmed.
pub open spec fn declaration(t: Seq<u8>) -> Option<(Seq<u8>, Seq<u8>)> {
    let keyword = "let ".spec_bytes();
    let rest = t.skip(keyword.len() as int);
    let k = offset_of(rest, EQUALS_SIGN) as int;
    if starts_with(t, keyword) && rest.contains(EQUALS_SIGN) && !rest.skip(k + 1).contains(
        EQUALS_SIGN,
    ) {
        Some((trim(rest.take(k)), trim(rest.skip(k + 1))))
    } else {
        None
    }
}

/// The variables after the trimmed line `t`: a declaration whose value has
/// a type gives its name that type, and any other line changes nothing.
pub open spec fn declare(variables: Map<Seq<u8>, VarType>, t: Seq<u8>) -> Map<Seq<u8>, VarType> {
    match declaration(t) {
        Some((name, value)) => match inferred_type(value, variables) {
            Some(ty) => variables.insert(name, ty),
            None => variables,
        },
        None => variables,
    }
}

/// The type of the expression `expr`, where it can be told.
pub fn infer_type(expr: &[u8], variables: &VarTable) -> (r: Option<VarType>)
    ensures
        r == inferred_type(expr@, variables@),
{
    let e = strip(expr);
    if quoted(e) {
        Some(VarType::Str)
    } else if integer_literal(e) {
        Some(VarType::Int)
    } else {
        variables.get(e)
    }
}

/// The name and the value of the declaration that the trimmed line `t`
/// holds.
pub fn parse_declaration<'a>(t: &'a [u8]) -> (r: Option<(&'a [u8], &'a [u8])>)
    ensures
        match r {
            Some((name, value)) => declaration(t@) == Some((name@, value@)),
            None => declaration(t@) is None,
        },
{
    let keyword = "let ".as_bytes();
    if !has_prefix(t, keyword) {
        return None;
    }
    let rest = &t[keyword.len()..t.len()];
    let k = find_byte(rest, EQUALS_SIGN);
    if k >= rest.len() {
        return None;
    }
    let after = &rest[k + 1..rest.len()];
    if find_byte(after, EQUALS_SIGN) < after.len() {
        return None;
    }
    let before = &rest[0..k];
    Some((strip(before), strip(after)))
}

/// Records the declaration that the trimmed line `t` holds, if it holds one
/// and its value has a type.
pub fn record_declaration(variables: &mut VarTable, t: &[u8])
    ensures
        final(variables)@ == declare(old(variables)@, t@),
{
    if let Some((name, value)) = parse_declaration(t) {
        if let Some(ty) = infer_type(value, variables) {
            variables.insert(name, ty);
        }
    }
}

} // verus!
