//! Atari ST STX (Pasti) disk images.
//!
//! The basic structure of a Pasti image is a file header followed by a
//! sequence of track blocks.  Each track block holds a track header and,
//! depending on the track flags, either a plain dump of 512-byte sectors or
//! a list of sector headers followed by the sector data.
//!
//! Sector headers carry a CCITT CRC-16 over the synthesised address block;
//! a mismatch ends the decode.

pub mod disk;
pub mod sector;
pub mod track;

use vstd::prelude::*;

verus! {

/// The CCITT CRC-16 polynomial.
pub const CCITT_CRC16_POLY: u16 = 0x1021;

/// One shift round of the CRC-16 state: shift left, and fold in the
/// polynomial when the top bit was set.
pub open spec fn crc16_shift_once(crc: u16) -> u16 {
    if crc & 0x8000 != 0 {
        (crc << 1) ^ 0x1021
    } else {
        crc << 1
    }
}

/// `n` shift rounds of the CRC-16 state.
pub open spec fn crc16_shift_n(crc: u16, n: nat) -> u16
    decreases n,
{
    if n == 0 {
        crc
    } else {
        crc16_shift_once(crc16_shift_n(crc, (n - 1) as nat))
    }
}

/// What folding one byte into the CRC-16 state yields: exclusive-or the
/// byte into the high half, then eight shift rounds.
pub open spec fn spec_crc16_add_byte(crc: u16, byte: u8) -> u16 {
    crc16_shift_n(crc ^ ((byte as u16) << 8), 8)
}

/// Add a byte to the CRC.
pub fn crc16_add_byte(crc: u16, byte: u8) -> (r: u16)
    ensures
        r == spec_crc16_add_byte(crc, byte),
{
    let mut new_crc: u16 = crc ^ ((byte as u16) << 8);
    let ghost start: u16 = new_crc;
    let mut i: usize = 0;
    while i < 8
        invariant
            i <= 8,
            new_crc == crc16_shift_n(start, i as nat),
        decreases 8 - i,
    {
        if (new_crc & 0x8000u16) != 0 {
            new_crc = (new_crc << 1u16) ^ CCITT_CRC16_POLY;
        } else {
            new_crc = new_crc << 1u16;
        }
        i = i + 1;
    }
    new_crc
}

} // verus!
