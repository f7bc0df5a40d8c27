//! Byte-slice parser primitives.
//!
//! Every parser works on a borrowed byte slice together with a cursor
//! position, and returns the parsed value alongside the position of the
//! first byte it did not consume.  `None` means the input was too short.
use vstd::prelude::*;

verus! {

/// A 16-bit word from two bytes in little-endian order.
pub open spec fn spec_le_u16(lo: u8, hi: u8) -> u16 {
    (lo + hi * 0x100) as u16
}

/// A 16-bit word from two bytes in big-endian order.
pub open spec fn spec_be_u16(hi: u8, lo: u8) -> u16 {
    (lo + hi * 0x100) as u16
}

/// A 32-bit word from four bytes in little-endian order.
pub open spec fn spec_le_u32(b0: u8, b1: u8, b2: u8, b3: u8) -> u32 {
    (b0 + b1 * 0x100 + b2 * 0x10000 + b3 * 0x1000000) as u32
}

/// Read one byte.
pub fn read_u8(data: &[u8], pos: usize) -> (r: Option<(u8, usize)>)
    ensures
        pos + 1 <= data@.len() ==> (r matches Some(v) && v.0 == data@[pos as int] && v.1 == pos
            + 1),
        pos + 1 > data@.len() ==> r is None,
{
    if pos < data.len() {
        Some((data[pos], pos + 1))
    } else {
        None
    }
}

/// Read a little-endian 16-bit word.
pub fn read_le_u16(data: &[u8], pos: usize) -> (r: Option<(u16, usize)>)
    ensures
        pos + 2 <= data@.len() ==> (r matches Some(v) && v.0 == spec_le_u16(
            data@[pos as int],
            data@[pos + 1],
        ) && v.1 == pos + 2),
        pos + 2 > data@.len() ==> r is None,
{
    if pos < data.len() && data.len() - pos >= 2 {
        let lo = data[pos];
        let hi = data[pos + 1];
        Some((lo as u16 + hi as u16 * 0x100, pos + 2))
    } else {
        None
    }
}

/// Read a big-endian 16-bit word.
pub fn read_be_u16(data: &[u8], pos: usize) -> (r: Option<(u16, usize)>)
    ensures
        pos + 2 <= data@.len() ==> (r matches Some(v) && v.0 == spec_be_u16(
            data@[pos as int],
            data@[pos + 1],
        ) && v.1 == pos + 2),
        pos + 2 > data@.len() ==> r is None,
{
    if pos < data.len() && data.len() - pos >= 2 {
        let hi = data[pos];
        let lo = data[pos + 1];
        Some((lo as u16 + hi as u16 * 0x100, pos + 2))
    } else {
        None
    }
}

/// Read a little-endian 32-bit word.
pub fn read_le_u32(data: &[u8], pos: usize) -> (r: Option<(u32, usize)>)
    ensures
        pos + 4 <= data@.len() ==> (r matches Some(v) && v.0 == spec_le_u32(
            data@[pos as int],
            data@[pos + 1],
            data@[pos + 2],
            data@[pos + 3],
        ) && v.1 == pos + 4),
        pos + 4 > data@.len() ==> r is None,
{
    if pos < data.len() && data.len() - pos >= 4 {
        let b0 = data[pos];
        let b1 = data[pos + 1];
        let b2 = data[pos + 2];
        let b3 = data[pos + 3];
        Some((b0 as u32 + b1 as u32 * 0x100 + b2 as u32 * 0x10000 + b3 as u32 * 0x1000000, pos + 4))
    } else {
        None
    }
}

/// Copy a fixed number of bytes out of the input.
pub fn take_bytes(data: &[u8], pos: usize, n: usize) -> (r: Option<(Vec<u8>, usize)>)
    ensures
        pos + n <= data@.len() ==> (r matches Some(v) && v.0@ == data@.subrange(pos as int, pos + n)
            && v.1 == pos + n),
        pos + n > data@.len() ==> r is None,
{
    if pos <= data.len() && data.len() - pos >= n {
        let mut taken: Vec<u8> = Vec::new();
        let mut i: usize = 0;
        while i < n
            invariant
                pos + n <= data@.len(),
                n <= usize::MAX - pos,
                i <= n,
                taken@ == data@.subrange(pos as int, pos + i),
            decreases n - i,
        {
            taken.push(data[pos + i]);
            proof {
                assert(taken@ =~= data@.subrange(pos as int, pos + i + 1));
            }
            i = i + 1;
        }
        Some((taken, pos + n))
    } else {
        None
    }
}

} // verus!
