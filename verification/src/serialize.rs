//! Helpers to serialize decoded structures back to bytes.
use vstd::prelude::*;

verus! {

use crate::bytes::spec_le_u16;

/// Convert a 16-bit word to a little-endian pair of bytes.
pub fn little_endian_word_to_bytes(word: u16) -> (bytes: Vec<u8>)
    ensures
        bytes@.len() == 2,
        bytes@[0] == (word & 0xFF) as u8,
        bytes@[1] == (word >> 8) as u8,
        spec_le_u16(bytes@[0], bytes@[1]) == word,
{
    let lo: u8 = (word & 0xFF) as u8;
    let hi: u8 = ((word >> 8) & 0xFF) as u8;
    let mut bytes: Vec<u8> = Vec::new();
    bytes.push(lo);
    bytes.push(hi);
    proof {
        assert(spec_le_u16((word & 0xFF) as u8, ((word >> 8) & 0xFF) as u8) == word)
            by (bit_vector);
        assert(((word >> 8) & 0xFF) as u8 == (word >> 8) as u8) by (bit_vector);
    }
    bytes
}

} // verus!
