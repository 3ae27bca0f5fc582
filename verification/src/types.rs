//! The types of Dice values.

use vstd::prelude::*;

verus! {

/// The type that an expression is found to have.
#[derive(Clone, Copy, Debug, PartialEq, Eq, Structural)]
pub enum VarType {
    /// An integer; its name is `int`.
    Int,
    /// A string; its name is `string`.
    Str,
}

impl VarType {
    /// The type's name, as diagnostics print it.
    pub open spec fn name(self) -> Seq<char> {
        match self {
            VarType::Int => "int"@,
            VarType::Str => "string"@,
        }
    }

    /// The type's name, as diagnostics print it.
    pub fn as_str(&self) -> (s: &'static str)
        ensures
            s@ == self.name(),
    {
        match self {
            VarType::Int => "int",
            VarType::Str => "string",
        }
    }
}

/// The byte `+`.
pub const PLUS: u8 = 0x2b;

/// The byte `-`.
pub const MINUS: u8 = 0x2d;

/// The byte `"`.
pub const QUOTE: u8 = 0x22;

/// `b` is one of the digits `0` to `9`.
pub open spec fn is_digit(b: u8) -> bool {
    0x30 <= b <= 0x39
}

/// Every byte of `s` is a digit.
pub open spec fn all_digits(s: Seq<u8>) -> bool {
    forall|i: int| 0 <= i < s.len() ==> is_digit(#[trigger] s[i])
}

/// The number that the digits `s` write in base ten.
pub open spec fn decimal_value(s: Seq<u8>) -> int
    decreases s.len(),
{
    if s.len() == 0 {
        0
    } else {
        decimal_value(s.drop_last()) * 10 + (s.last() - 0x30)
    }
}

/// `s` writes an integer that a signed 64-bit number can hold: a sign or
/// none, then one digit or more, and nothing else.
pub open spec fn is_integer_literal(s: Seq<u8>) -> bool {
    let signed = s.len() > 0 && (s[0] == PLUS || s[0] == MINUS);
    let digits = if signed {
        s.skip(1)
    } else {
        s
    };
    &&& digits.len() > 0
    &&& all_digits(digits)
    &&& if signed && s[0] == MINUS {
        decimal_value(digits) <= 0x8000_0000_0000_0000
    } else {
        decimal_value(digits) <= 0x7fff_ffff_ffff_ffff
    }
}

/// `s` begins with a double quote and ends with one. They may be one and
/// the same: a lone quote is quoted.
pub open spec fn is_quoted(s: Seq<u8>) -> bool {
    s.len() > 0 && s.first() == QUOTE && s.last() == QUOTE
}

/// Does `s` write an integer that a signed 64-bit number can hold?
pub fn integer_literal(s: &[u8]) -> (r: bool)
    ensures
        r == is_integer_literal(s@),
{
    let n = s.len();
    let negative = n > 0 && s[0] == MINUS;
    let start: usize = if n > 0 && (s[0] == PLUS || s[0] == MINUS) {
        1
    } else {
        0
    };
    if start == n {
        return false;
    }
    let limit: u64 = if negative {
        0x8000_0000_0000_0000
    } else {
        0x7fff_ffff_ffff_ffff
    };
    let ghost digits = s@.skip(start as int);
    let mut value: u64 = 0;
    let mut fits = true;
    let mut i: usize = start;
    while i < n
        invariant
            start <= i <= n,
            n == s@.len(),
            digits == s@.skip(start as int),
            start == 1 <==> s@[0] == PLUS || s@[0] == MINUS,
            start == 0 || start == 1,
            start < n,
            limit == if start == 1 && s@[0] == MINUS {
                0x8000_0000_0000_0000u64
            } else {
                0x7fff_ffff_ffff_ffffu64
            },
            all_digits(digits.take(i - start)),
            fits ==> value == decimal_value(digits.take(i - start)) && value <= limit,
            !fits ==> decimal_value(digits.take(i - start)) > limit,
        decreases n - i,
    {
        let b = s[i];
        if b < 0x30 || b > 0x39 {
            assert(!is_digit(digits[i - start]));
            return false;
        }
        proof {
            let longer = digits.take(i + 1 - start);
            assert(longer.drop_last() =~= digits.take(i - start));
            assert(all_digits(longer));
        }
        if fits {
            let next: u128 = value as u128 * 10 + (b - 0x30) as u128;
            if next > limit as u128 {
                fits = false;
            } else {
                value = next as u64;
            }
        }
        i += 1;
    }
    assert(digits.take(n - start) =~= digits);
    assert(s@.skip(0) =~= s@);
    fits
}

/// Does `s` begin and end with a double quote?
pub fn quoted(s: &[u8]) -> (r: bool)
    ensures
        r == is_quoted(s@),
{
    let n = s.len();
    n > 0 && s[0] == QUOTE && s[n - 1] == QUOTE
}

} // verus!
