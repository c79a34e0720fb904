//! Letter case of ASCII bytes.

use vstd::prelude::*;

verus! {

/// An ASCII capital turned into its small letter; any other byte unchanged.
pub open spec fn ascii_lower(c: u8) -> u8 {
    if 0x41 <= c <= 0x5a {
        (c + 0x20) as u8
    } else {
        c
    }
}

/// The text with every ASCII capital turned into its small letter.
pub open spec fn lower_case(text: Seq<u8>) -> Seq<u8> {
    text.map_values(|c: u8| ascii_lower(c))
}

/// The small letter of an ASCII capital; any other byte as it is.
pub fn to_ascii_lower(c: u8) -> (lower: u8)
    ensures
        lower == ascii_lower(c),
{
    if 0x41 <= c && c <= 0x5a {
        c + 0x20
    } else {
        c
    }
}

} // verus!
