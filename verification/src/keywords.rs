//! The bytes of the words of Dice.

use vstd::prelude::*;
use vstd::string::{is_ascii, is_ascii_spec_bytes, StringSliceAdditionalSpecFns};

verus! {

/// The words that begin and end an `if` line, byte by byte.
pub proof fn lemma_if_then()
    ensures
        "if".spec_bytes() == seq![0x69u8, 0x66u8],
        "if ".spec_bytes() == seq![0x69u8, 0x66u8, 0x20u8],
        "then".spec_bytes() == seq![0x74u8, 0x68u8, 0x65u8, 0x6eu8],
        " then".spec_bytes() == seq![0x20u8, 0x74u8, 0x68u8, 0x65u8, 0x6eu8],
{
    broadcast use is_ascii_spec_bytes;

    reveal_strlit("if");
    reveal_strlit("if ");
    reveal_strlit("then");
    reveal_strlit(" then");
    assert(is_ascii("if") && is_ascii("if ") && is_ascii("then") && is_ascii(" then"));
}

} // verus!
