//! Encoding and decoding of nibble-based Apple disk formats.
//!
//! The Apple ][ disk controller permits only disk bytes with the high bit
//! set, at least two adjacent set bits, and at most one pair of consecutive
//! zero bits; `0xAA` and `0xD5` are reserved as framing bytes.  Two code
//! formats are handled: 4-and-4, which stores a data byte as two disk bytes
//! carrying its odd and even bits, and 6-and-2, which expands 256 data bytes
//! to 342 disk bytes through a 64-entry code table.
use vstd::prelude::*;

verus! {

use crate::error::{Error, ErrorKind, InvalidErrorKind};
use crate::text::spec_dec_digits;
use vstd::string::StringExecFns;

/// The 6-and-2 write table: the disk byte a six-bit value is written as.
/// The 64 entries are strictly increasing, from 0x96 to 0xFF.
pub open spec fn spec_write_table(x: u8) -> u8 {
    if x == 0 {
        0x96
    } else if x == 1 {
        0x97
    } else if x == 2 {
        0x9A
    } else if x == 3 {
        0x9B
    } else if x == 4 {
        0x9D
    } else if x == 5 {
        0x9E
    } else if x == 6 {
        0x9F
    } else if x == 7 {
        0xA6
    } else if x == 8 {
        0xA7
    } else if x == 9 {
        0xAB
    } else if x == 10 {
        0xAC
    } else if x == 11 {
        0xAD
    } else if x == 12 {
        0xAE
    } else if x == 13 {
        0xAF
    } else if x == 14 {
        0xB2
    } else if x == 15 {
        0xB3
    } else if x == 16 {
        0xB4
    } else if x == 17 {
        0xB5
    } else if x == 18 {
        0xB6
    } else if x == 19 {
        0xB7
    } else if x == 20 {
        0xB9
    } else if x == 21 {
        0xBA
    } else if x == 22 {
        0xBB
    } else if x == 23 {
        0xBC
    } else if x == 24 {
        0xBD
    } else if x == 25 {
        0xBE
    } else if x == 26 {
        0xBF
    } else if x == 27 {
        0xCB
    } else if x == 28 {
        0xCD
    } else if x == 29 {
        0xCE
    } else if x == 30 {
        0xCF
    } else if x == 31 {
        0xD3
    } else if x == 32 {
        0xD6
    } else if x == 33 {
        0xD7
    } else if x == 34 {
        0xD9
    } else if x == 35 {
        0xDA
    } else if x == 36 {
        0xDB
    } else if x == 37 {
        0xDC
    } else if x == 38 {
        0xDD
    } else if x == 39 {
        0xDE
    } else if x == 40 {
        0xDF
    } else if x == 41 {
        0xE5
    } else if x == 42 {
        0xE6
    } else if x == 43 {
        0xE7
    } else if x == 44 {
        0xE9
    } else if x == 45 {
        0xEA
    } else if x == 46 {
        0xEB
    } else if x == 47 {
        0xEC
    } else if x == 48 {
        0xED
    } else if x == 49 {
        0xEE
    } else if x == 50 {
        0xEF
    } else if x == 51 {
        0xF2
    } else if x == 52 {
        0xF3
    } else if x == 53 {
        0xF4
    } else if x == 54 {
        0xF5
    } else if x == 55 {
        0xF6
    } else if x == 56 {
        0xF7
    } else if x == 57 {
        0xF9
    } else if x == 58 {
        0xFA
    } else if x == 59 {
        0xFB
    } else if x == 60 {
        0xFC
    } else if x == 61 {
        0xFD
    } else if x == 62 {
        0xFE
    } else {
        0xFF
    }
}

/// The 6-and-2 read table: the six-bit value a disk byte stands for, and
/// zero for a byte that is not a valid code.
pub open spec fn spec_read_table(b: u8) -> u8 {
    if b == 0x96 {
        0
    } else if b == 0x97 {
        1
    } else if b == 0x9A {
        2
    } else if b == 0x9B {
        3
    } else if b == 0x9D {
        4
    } else if b == 0x9E {
        5
    } else if b == 0x9F {
        6
    } else if b == 0xA6 {
        7
    } else if b == 0xA7 {
        8
    } else if b == 0xAB {
        9
    } else if b == 0xAC {
        10
    } else if b == 0xAD {
        11
    } else if b == 0xAE {
        12
    } else if b == 0xAF {
        13
    } else if b == 0xB2 {
        14
    } else if b == 0xB3 {
        15
    } else if b == 0xB4 {
        16
    } else if b == 0xB5 {
        17
    } else if b == 0xB6 {
        18
    } else if b == 0xB7 {
        19
    } else if b == 0xB9 {
        20
    } else if b == 0xBA {
        21
    } else if b == 0xBB {
        22
    } else if b == 0xBC {
        23
    } else if b == 0xBD {
        24
    } else if b == 0xBE {
        25
    } else if b == 0xBF {
        26
    } else if b == 0xCB {
        27
    } else if b == 0xCD {
        28
    } else if b == 0xCE {
        29
    } else if b == 0xCF {
        30
    } else if b == 0xD3 {
        31
    } else if b == 0xD6 {
        32
    } else if b == 0xD7 {
        33
    } else if b == 0xD9 {
        34
    } else if b == 0xDA {
        35
    } else if b == 0xDB {
        36
    } else if b == 0xDC {
        37
    } else if b == 0xDD {
        38
    } else if b == 0xDE {
        39
    } else if b == 0xDF {
        40
    } else if b == 0xE5 {
        41
    } else if b == 0xE6 {
        42
    } else if b == 0xE7 {
        43
    } else if b == 0xE9 {
        44
    } else if b == 0xEA {
        45
    } else if b == 0xEB {
        46
    } else if b == 0xEC {
        47
    } else if b == 0xED {
        48
    } else if b == 0xEE {
        49
    } else if b == 0xEF {
        50
    } else if b == 0xF2 {
        51
    } else if b == 0xF3 {
        52
    } else if b == 0xF4 {
        53
    } else if b == 0xF5 {
        54
    } else if b == 0xF6 {
        55
    } else if b == 0xF7 {
        56
    } else if b == 0xF9 {
        57
    } else if b == 0xFA {
        58
    } else if b == 0xFB {
        59
    } else if b == 0xFC {
        60
    } else if b == 0xFD {
        61
    } else if b == 0xFE {
        62
    } else if b == 0xFF {
        63
    } else {
        0
    }
}

/// Look up the disk byte a six-bit value is written as.
pub fn write_table_entry(x: u8) -> (r: u8)
    requires
        x < 64,
    ensures
        r == spec_write_table(x),
{
    match x {
        0 => 0x96,
        1 => 0x97,
        2 => 0x9A,
        3 => 0x9B,
        4 => 0x9D,
        5 => 0x9E,
        6 => 0x9F,
        7 => 0xA6,
        8 => 0xA7,
        9 => 0xAB,
        10 => 0xAC,
        11 => 0xAD,
        12 => 0xAE,
        13 => 0xAF,
        14 => 0xB2,
        15 => 0xB3,
        16 => 0xB4,
        17 => 0xB5,
        18 => 0xB6,
        19 => 0xB7,
        20 => 0xB9,
        21 => 0xBA,
        22 => 0xBB,
        23 => 0xBC,
        24 => 0xBD,
        25 => 0xBE,
        26 => 0xBF,
        27 => 0xCB,
        28 => 0xCD,
        29 => 0xCE,
        30 => 0xCF,
        31 => 0xD3,
        32 => 0xD6,
        33 => 0xD7,
        34 => 0xD9,
        35 => 0xDA,
        36 => 0xDB,
        37 => 0xDC,
        38 => 0xDD,
        39 => 0xDE,
        40 => 0xDF,
        41 => 0xE5,
        42 => 0xE6,
        43 => 0xE7,
        44 => 0xE9,
        45 => 0xEA,
        46 => 0xEB,
        47 => 0xEC,
        48 => 0xED,
        49 => 0xEE,
        50 => 0xEF,
        51 => 0xF2,
        52 => 0xF3,
        53 => 0xF4,
        54 => 0xF5,
        55 => 0xF6,
        56 => 0xF7,
        57 => 0xF9,
        58 => 0xFA,
        59 => 0xFB,
        60 => 0xFC,
        61 => 0xFD,
        62 => 0xFE,
        _ => 0xFF,
    }
}

/// Look up the six-bit value a disk byte stands for.
pub fn read_table_entry(b: u8) -> (r: u8)
    ensures
        r == spec_read_table(b),
{
    match b {
        0x97 => 1,
        0x9A => 2,
        0x9B => 3,
        0x9D => 4,
        0x9E => 5,
        0x9F => 6,
        0xA6 => 7,
        0xA7 => 8,
        0xAB => 9,
        0xAC => 10,
        0xAD => 11,
        0xAE => 12,
        0xAF => 13,
        0xB2 => 14,
        0xB3 => 15,
        0xB4 => 16,
        0xB5 => 17,
        0xB6 => 18,
        0xB7 => 19,
        0xB9 => 20,
        0xBA => 21,
        0xBB => 22,
        0xBC => 23,
        0xBD => 24,
        0xBE => 25,
        0xBF => 26,
        0xCB => 27,
        0xCD => 28,
        0xCE => 29,
        0xCF => 30,
        0xD3 => 31,
        0xD6 => 32,
        0xD7 => 33,
        0xD9 => 34,
        0xDA => 35,
        0xDB => 36,
        0xDC => 37,
        0xDD => 38,
        0xDE => 39,
        0xDF => 40,
        0xE5 => 41,
        0xE6 => 42,
        0xE7 => 43,
        0xE9 => 44,
        0xEA => 45,
        0xEB => 46,
        0xEC => 47,
        0xED => 48,
        0xEE => 49,
        0xEF => 50,
        0xF2 => 51,
        0xF3 => 52,
        0xF4 => 53,
        0xF5 => 54,
        0xF6 => 55,
        0xF7 => 56,
        0xF9 => 57,
        0xFA => 58,
        0xFB => 59,
        0xFC => 60,
        0xFD => 61,
        0xFE => 62,
        0xFF => 63,
        _ => 0,
    }
}

/// Reading back a written value yields the value: the read table is the
/// inverse of the write table.
pub proof fn lemma_read_write_table(x: u8)
    requires
        x < 64,
    ensures
        spec_read_table(spec_write_table(x)) == x,
{
}

/// The different nibble encoding formats used for Apple disk images.
/// Hardware requirements kept some byte values off the disk, so data bytes
/// are spread over several disk bytes.
pub enum Format {
    /// Four-and-four splits each data byte into two disk bytes carrying its
    /// odd and even bits.  Used in versions of DOS before DOS 3.
    FourAndFour,
    /// Five-and-three uses five bits of data per disk byte.  Used from DOS 3
    /// to DOS 3.2.1.
    FiveAndThree,
    /// Six-and-two uses six bits of data per disk byte, enabled by disk ROM
    /// changes that allowed two consecutive zero bits.  Used in DOS 3.3.
    SixAndTwo,
}

/// The low two bits of a byte, swapped: bit 0 becomes bit 1 and bit 1
/// becomes bit 0.
pub open spec fn spec_swap_low_bits(d: u8) -> u8 {
    ((d & 0x1) << 1) | ((d & 0x2) >> 1)
}

/// The value the two-bit reverse table holds: 0, 2, 1, 3.
pub open spec fn spec_reverse_value(v: u8) -> u8 {
    if v == 0 {
        0
    } else if v == 1 {
        2
    } else if v == 2 {
        1
    } else {
        3
    }
}

/// The auxiliary byte at index `i` of the 6-and-2 encoding: the swapped low
/// bit pairs of three source bytes, packed into bits 6..2.  The two last
/// auxiliary bytes carry only two pairs and are masked down.
pub open spec fn spec_aux_byte(b: Seq<u8>, i: int) -> u8 {
    let v = (spec_swap_low_bits(b[(i + 0xAC) % 0x100]) << 6) | (spec_swap_low_bits(
        b[(i + 0x56) % 0x100],
    ) << 4) | (spec_swap_low_bits(b[i]) << 2);
    if i == 84 || i == 85 {
        v & 0x3F
    } else {
        v
    }
}

/// The nibble buffer of the 6-and-2 encoding before the exclusive-or chain:
/// 0x56 auxiliary bytes, then the 256 data bytes, then two zero bytes.
pub open spec fn spec_nibble_buffer_byte(b: Seq<u8>, j: int) -> u8 {
    if j < 0 {
        0
    } else if j < 0x56 {
        spec_aux_byte(b, j)
    } else if j < 342 {
        b[j - 0x56]
    } else {
        0
    }
}

/// One encoded disk byte of the 6-and-2 encoding: the exclusive-or of two
/// adjacent nibble-buffer bytes, shifted down to six bits and written
/// through the code table.
pub open spec fn spec_encoded_byte(b: Seq<u8>, j: int) -> u8 {
    spec_write_table(
        ((spec_nibble_buffer_byte(b, j) ^ spec_nibble_buffer_byte(b, j - 1)) >> 2) as u8,
    )
}

/// The 342 disk bytes that 256 data bytes encode to under 6-and-2.
pub open spec fn spec_encode_6_and_2(b: Seq<u8>) -> Seq<u8> {
    Seq::new(342, |j: int| spec_encoded_byte(b, j))
}

/// Exclusive-or with zero changes nothing.
proof fn lemma_xor_zero(x: u8)
    ensures
        0u8 ^ x == x,
        x ^ 0u8 == x,
{
    assert(0u8 ^ x == x && x ^ 0u8 == x) by (bit_vector);
}

/// A six-bit shift of a byte is below 64.
proof fn lemma_shr2_bound(d: u8)
    ensures
        (d >> 2) < 64,
{
    assert((d >> 2) < 64) by (bit_vector);
}

/// A 6-and-2 encoded data field that follows an address field in a nibble
/// image.
pub struct DataField {
    /// 342 bytes of data, encoded as 6-and-2.
    pub data: Vec<u8>,
    /// The checksum byte of the data.
    pub checksum: u8,
}

/// A 256-byte sector computed from 6-and-2 data.
#[derive(Clone)]
pub struct Sector {
    /// The sector data.
    pub data: Vec<u8>,
}

/// Nibblize a sector using the 6-and-2 algorithm: pack the low bit pairs of
/// the 256 data bytes into 0x56 auxiliary bytes, append the data bytes,
/// chain the buffer by exclusive-or, and write the six-bit values through
/// the code table.  The checksum that closes the chain is always zero.
pub fn build_nibble_sector(data: &[u8]) -> (df: DataField)
    requires
        data@.len() >= 256,
    ensures
        df.data@ == spec_encode_6_and_2(data@.take(256)),
        df.checksum == 0,
{
    let ghost b = data@.take(256);
    // The nibble buffer: 0x56 auxiliary bytes, the data, two zero bytes.
    let mut nibble_data: Vec<u8> = Vec::new();
    let mut i: usize = 0;
    while i < 0x56
        invariant
            data@.len() >= 256,
            b == data@.take(256),
            i <= 0x56,
            nibble_data@.len() == i,
            forall|j: int| 0 <= j < i ==> nibble_data@[j] == spec_nibble_buffer_byte(b, j),
        decreases 0x56 - i,
    {
        let ac_index: usize = (i + 0xAC) % 0x100;
        let index_56: usize = (i + 0x56) % 0x100;
        let d_ac = data[ac_index];
        let d_56 = data[index_56];
        let d_i = data[i];
        let mut val: u8 = (((d_ac & 0x1) << 1) | ((d_ac & 0x2) >> 1)) << 6;
        val = val | ((((d_56 & 0x1) << 1) | ((d_56 & 0x2) >> 1)) << 4);
        val = val | ((((d_i & 0x1) << 1) | ((d_i & 0x2) >> 1)) << 2);
        if i == 84 || i == 85 {
            val = val & 0x3F;
        }
        nibble_data.push(val);
        i = i + 1;
    }
    let mut k: usize = 0;
    while k < 256
        invariant
            data@.len() >= 256,
            b == data@.take(256),
            k <= 256,
            nibble_data@.len() == 0x56 + k,
            forall|j: int| 0 <= j < 0x56 + k ==> nibble_data@[j] == spec_nibble_buffer_byte(b, j),
        decreases 256 - k,
    {
        nibble_data.push(data[k]);
        k = k + 1;
    }
    nibble_data.push(0);
    nibble_data.push(0);
    proof {
        assert(forall|j: int|
            0 <= j < 344 ==> nibble_data@[j] == spec_nibble_buffer_byte(b, j));
    }

    // Chain the buffer: each byte is exclusive-or-ed with its predecessor.
    // The checksum tracks the previous original byte and ends on the final
    // zero byte.
    let mut chained: Vec<u8> = Vec::new();
    let mut checksum: u8 = 0;
    let mut j: usize = 0;
    while j < 344
        invariant
            nibble_data@.len() == 344,
            forall|t: int| 0 <= t < 344 ==> nibble_data@[t] == spec_nibble_buffer_byte(b, t),
            j <= 344,
            chained@.len() == j,
            checksum == spec_nibble_buffer_byte(b, j - 1),
            forall|t: int|
                0 <= t < j ==> chained@[t] == (spec_nibble_buffer_byte(b, t)
                    ^ spec_nibble_buffer_byte(b, t - 1)),
        decreases 344 - j,
    {
        let saved_data = nibble_data[j];
        chained.push(saved_data ^ checksum);
        checksum = saved_data;
        j = j + 1;
    }

    // Write the six-bit values through the code table.
    let mut final_data: Vec<u8> = Vec::new();
    let mut t: usize = 0;
    while t < 342
        invariant
            chained@.len() == 344,
            forall|u: int|
                0 <= u < 344 ==> chained@[u] == (spec_nibble_buffer_byte(b, u)
                    ^ spec_nibble_buffer_byte(b, u - 1)),
            t <= 342,
            final_data@.len() == t,
            forall|u: int| 0 <= u < t ==> final_data@[u] == spec_encoded_byte(b, u),
        decreases 342 - t,
    {
        let d = chained[t];
        proof {
            lemma_shr2_bound(d);
        }
        final_data.push(write_table_entry(d >> 2));
        t = t + 1;
    }
    proof {
        assert(final_data@ =~= spec_encode_6_and_2(b));
        assert(spec_nibble_buffer_byte(b, 343) == 0);
    }

    DataField { data: final_data, checksum }
}

/// Parse the data component of a data field: each byte, masked to its low
/// seven bits, is read through the code table.
pub fn parse_6_and_2_nibblized_data(i: &[u8]) -> (r: Vec<u8>)
    ensures
        r@.len() == i@.len(),
        forall|k: int| 0 <= k < i@.len() ==> r@[k] == spec_read_table((i@[k] & 0x7F) as u8),
{
    let mut data: Vec<u8> = Vec::new();
    let mut k: usize = 0;
    while k < i.len()
        invariant
            k <= i@.len(),
            data@.len() == k,
            forall|t: int| 0 <= t < k ==> data@[t] == spec_read_table((i@[t] & 0x7F) as u8),
        decreases i@.len() - k,
    {
        data.push(read_table_entry(i[k] & 0x7F));
        k = k + 1;
    }
    data
}

/// The running exclusive-or of the read-table values of the first `k + 1`
/// bytes of an encoded data field.
pub open spec fn spec_read_cumulative(d: Seq<u8>, k: int) -> u8
    decreases k,
{
    if k <= 0 {
        spec_read_table(d[0])
    } else {
        spec_read_cumulative(d, k - 1) ^ spec_read_table(d[k])
    }
}

/// The de-interleaved buffer a data field builds: the first 256 positions
/// hold the running values of the data bytes, the rest hold the running
/// values of the auxiliary bytes, in reverse.
pub open spec fn spec_build_buffer(d: Seq<u8>) -> Seq<u8> {
    Seq::new(
        342,
        |p: int|
            if p < 256 {
                spec_read_cumulative(d, p + 0x56)
            } else {
                spec_read_cumulative(d, 341 - p)
            },
    )
}

/// The checksum the decode of a data field computes: the exclusive-or over
/// all 342 read-table values and the read-table value of the stored
/// checksum byte.
pub open spec fn spec_build_checksum(df_data: Seq<u8>, df_checksum: u8) -> u8 {
    spec_read_cumulative(df_data, 341) ^ spec_read_table(df_checksum)
}

/// Compute the de-interleaved buffer and the checksum for a data field.
pub fn data_field_build_buffer(data_field: &DataField) -> (r: (Vec<u8>, u8))
    requires
        data_field.data@.len() == 342,
    ensures
        r.0@ == spec_build_buffer(data_field.data@),
        r.1 == spec_build_checksum(data_field.data@, data_field.checksum),
{
    let ghost d = data_field.data@;
    // The running exclusive-or values, in byte order.
    let mut cums: Vec<u8> = Vec::new();
    let mut computed_checksum: u8 = 0;
    let mut k: usize = 0;
    while k < 342
        invariant
            data_field.data@.len() == 342,
            d == data_field.data@,
            k <= 342,
            cums@.len() == k,
            forall|t: int| 0 <= t < k ==> cums@[t] == spec_read_cumulative(d, t),
            computed_checksum == if k == 0 {
                0u8
            } else {
                spec_read_cumulative(d, k - 1)
            },
        decreases 342 - k,
    {
        let rv = read_table_entry(data_field.data[k]);
        proof {
            if k == 0 {
                lemma_xor_zero(rv);
            }
        }
        computed_checksum = computed_checksum ^ rv;
        cums.push(computed_checksum);
        k = k + 1;
    }
    computed_checksum = computed_checksum ^ read_table_entry(data_field.checksum);

    // The first 0x56 running values fill the buffer tail in reverse; the
    // rest fill the buffer head in order.
    let mut buffer: Vec<u8> = Vec::new();
    let mut p: usize = 0;
    while p < 256
        invariant
            cums@.len() == 342,
            forall|t: int| 0 <= t < 342 ==> cums@[t] == spec_read_cumulative(d, t),
            p <= 256,
            buffer@.len() == p,
            forall|t: int| 0 <= t < p ==> buffer@[t] == spec_read_cumulative(d, t + 0x56),
        decreases 256 - p,
    {
        buffer.push(cums[p + 0x56]);
        p = p + 1;
    }
    let mut q: usize = 0;
    while q < 86
        invariant
            cums@.len() == 342,
            forall|t: int| 0 <= t < 342 ==> cums@[t] == spec_read_cumulative(d, t),
            q <= 86,
            buffer@.len() == 256 + q,
            forall|t: int| 0 <= t < 256 ==> buffer@[t] == spec_read_cumulative(d, t + 0x56),
            forall|t: int|
                256 <= t < 256 + q ==> buffer@[t] == spec_read_cumulative(d, 341 - t),
        decreases 86 - q,
    {
        buffer.push(cums[85 - q]);
        q = q + 1;
    }
    proof {
        assert(buffer@ =~= spec_build_buffer(d));
    }
    (buffer, computed_checksum)
}

/// The 256-byte sector a de-interleaved buffer stands for: the six high bits
/// come from the head of the buffer and the two low bits from the packed
/// auxiliary values in its tail.
pub open spec fn spec_transform_byte(buffer: Seq<u8>, i: int) -> u8 {
    let nibble_low = 342 - (i % 0x56) - 1;
    let shift_pairs = ((i / 0x56) * 2) as u8;
    (buffer[i] << 2) | spec_reverse_value(((buffer[nibble_low] >> shift_pairs) & 0x03) as u8)
}

/// The 256-byte sector a data field decodes to.
pub open spec fn spec_transform_data_field(d: Seq<u8>) -> Seq<u8> {
    Seq::new(256, |i: int| spec_transform_byte(spec_build_buffer(d), i))
}

/// Look up the two-bit reverse table: 0, 2, 1, 3.
pub fn reverse_value(v: u8) -> (r: u8)
    requires
        v < 4,
    ensures
        r == spec_reverse_value(v),
{
    match v {
        0 => 0,
        1 => 2,
        2 => 1,
        _ => 3,
    }
}

/// Transform a 6-and-2 data field to a 256-byte sector.
///
/// The computed checksum over the whole field must come out zero; when it
/// does not, the decode fails, unless checksum failures are ignored by
/// configuration.
pub fn transform_data_field(config: &crate::config::Config, data_field: &DataField) -> (r: Result<
    Sector,
    Error,
>)
    requires
        data_field.data@.len() == 342,
    ensures
        r is Ok <==> (spec_build_checksum(data_field.data@, data_field.checksum) == 0
            || config.ignore_checksums),
        r matches Ok(s) ==> s.data@ == spec_transform_data_field(data_field.data@),
        r matches Err(e) ==> e.kind matches ErrorKind::Invalid(InvalidErrorKind::Checksum),
{
    let (buffer, computed_checksum) = data_field_build_buffer(data_field);

    if computed_checksum != 0 && !config.ignore_checksums {
        return Err(Error::new(ErrorKind::Invalid(InvalidErrorKind::Checksum)));
    }

    let mut data: Vec<u8> = Vec::new();
    let mut i: usize = 0;
    while i < 256
        invariant
            buffer@ == spec_build_buffer(data_field.data@),
            buffer@.len() == 342,
            i <= 256,
            data@.len() == i,
            forall|t: int| 0 <= t < i ==> data@[t] == spec_transform_byte(buffer@, t),
        decreases 256 - i,
    {
        let byte_1 = buffer[i];
        let nibble_low: usize = 342 - (i % 0x56) - 1;
        let byte_2 = buffer[nibble_low];
        let shift_pairs: u8 = ((i / 0x56) * 2) as u8;
        proof {
            assert(((byte_2 >> shift_pairs) & 0x03) < 4) by (bit_vector);
        }
        let byte: u8 = (byte_1 << 2u8) | reverse_value((byte_2 >> shift_pairs) & 0x03);
        data.push(byte);
        i = i + 1;
    }
    proof {
        assert(data@ =~= spec_transform_data_field(data_field.data@));
    }
    Ok(Sector { data })
}

/// The running read value over an encoded field recovers the six high bits
/// of the nibble buffer: the exclusive-or chain telescopes.
proof fn lemma_cum_recovers_buffer(b: Seq<u8>, d: Seq<u8>, k: int)
    requires
        d == spec_encode_6_and_2(b),
        0 <= k < 342,
    ensures
        spec_read_cumulative(d, k) == (spec_nibble_buffer_byte(b, k) >> 2),
    decreases k,
{
    let x = spec_nibble_buffer_byte(b, k);
    let y = spec_nibble_buffer_byte(b, k - 1);
    lemma_shr2_bound((x ^ y) as u8);
    lemma_read_write_table(((x ^ y) >> 2) as u8);
    if k <= 0 {
        assert(y == 0);
        assert((x ^ 0u8) >> 2 == x >> 2) by (bit_vector);
    } else {
        lemma_cum_recovers_buffer(b, d, k - 1);
        assert((y >> 2) ^ ((x ^ y) >> 2) == x >> 2) by (bit_vector);
    }
}

/// The two low bits of a source byte survive packing into an auxiliary byte
/// and unpacking out of the decoded buffer.
proof fn lemma_two_bit_reconstruct(x: u8, s6: u8, s4: u8, s2: u8, a: u8, sp: u8, m: bool)
    by (bit_vector)
    requires
        a == if m {
            (((spec_swap_low_bits(s6) << 6) | (spec_swap_low_bits(s4) << 4) | (spec_swap_low_bits(
                s2,
            ) << 2)) & 0x3F) as u8
        } else {
            ((spec_swap_low_bits(s6) << 6) | (spec_swap_low_bits(s4) << 4) | (spec_swap_low_bits(
                s2,
            ) << 2)) as u8
        },
        (sp == 0 && x == s2) || (sp == 2 && x == s4) || (sp == 4 && x == s6 && !m),
    ensures
        ((x >> 2) << 2) | spec_reverse_value((((a >> 2) >> sp) & 0x03) as u8) == x,
{
}

/// Law: for every 256-byte buffer, decoding its 6-and-2 encoding yields the
/// buffer back.  The decode-side checksum of the encoded field is the six
/// high bits of the last data byte.
#[verifier::rlimit(100)]
pub proof fn lemma_6_and_2_round_trip(b: Seq<u8>)
    requires
        b.len() == 256,
    ensures
        spec_transform_data_field(spec_encode_6_and_2(b)) == b,
        spec_build_checksum(spec_encode_6_and_2(b), 0) == (b[255] >> 2),
{
    let d = spec_encode_6_and_2(b);
    let buffer = spec_build_buffer(d);

    assert forall|p: int| 0 <= p < 342 implies buffer[p] == if p < 256 {
        (b[p] >> 2) as u8
    } else {
        (spec_aux_byte(b, 341 - p) >> 2) as u8
    } by {
        if p < 256 {
            lemma_cum_recovers_buffer(b, d, p + 0x56);
        } else {
            lemma_cum_recovers_buffer(b, d, 341 - p);
        }
    }

    assert forall|i: int| 0 <= i < 256 implies spec_transform_byte(buffer, i) == b[i] by {
        let j = i % 0x56;
        let reg = i / 0x56;
        let nl = 342 - j - 1;
        assert(0 <= j < 0x56);
        assert(0 <= reg <= 2);
        assert(256 <= nl < 342);
        assert(341 - nl == j);
        let x = b[i];
        let s2 = b[j];
        let s4 = b[(j + 0x56) % 0x100];
        let s6 = b[(j + 0xAC) % 0x100];
        let m = j == 84 || j == 85;
        let a = spec_aux_byte(b, j);
        let sp = ((i / 0x56) * 2) as u8;
        assert(buffer[i] == (b[i] >> 2) as u8);
        assert(buffer[nl] == (a >> 2) as u8);
        if reg == 0 {
            assert(i == j && sp == 0);
            lemma_two_bit_reconstruct(x, s6, s4, s2, a, 0, m);
        } else if reg == 1 {
            assert(i == j + 0x56 && sp == 2);
            assert((j + 0x56) % 0x100 == i);
            lemma_two_bit_reconstruct(x, s6, s4, s2, a, 2, m);
        } else {
            assert(i == j + 0xAC && sp == 4);
            assert((j + 0xAC) % 0x100 == i);
            assert(!m);
            lemma_two_bit_reconstruct(x, s6, s4, s2, a, 4, m);
        }
    }
    assert(spec_transform_data_field(d) =~= b);

    lemma_cum_recovers_buffer(b, d, 341);
    assert(spec_read_table(0) == 0);
    let last = b[255];
    assert((last >> 2) ^ 0u8 == last >> 2) by (bit_vector);
}

/// A byte encoded in 4-and-4 format: the first disk byte carries the odd
/// bits, the second the even bits.
pub open spec fn spec_4_and_4(b0: u8, b1: u8) -> u8 {
    ((b0 << 1) | 0x01) & b1
}

/// Parse a single byte encoded in 4-and-4 nibble format.  This is used for
/// the volume, track, sector and checksum fields of an address field.
pub fn parse_nibble_byte_4_and_4(data: &[u8], pos: usize) -> (r: Result<(u8, usize), Error>)
    ensures
        r is Ok <==> pos + 2 <= data@.len(),
        r matches Ok((b, new_pos)) ==> b == spec_4_and_4(data@[pos as int], data@[pos + 1])
            && new_pos == pos + 2,
        r matches Err(e) ==> e.kind matches ErrorKind::Message(_),
{
    if pos < data.len() && data.len() - pos >= 2 {
        let byte = ((data[pos] << 1u8) | 0x01) & data[pos + 1];
        Ok((byte, pos + 2))
    } else {
        Err(Error::new(ErrorKind::new("Parsing requires more data")))
    }
}

/// An address field identifies the data field that follows it.
#[derive(Clone, Copy, Debug, PartialEq, Eq, Structural)]
pub struct AddressField {
    /// The volume of the sector.
    pub volume: u8,
    /// The track of the sector.
    pub track: u8,
    /// The sector number of the sector.
    pub sector: u8,
    /// The stored checksum of the address field.
    pub checksum: u8,
}

/// Where the first address prologue at or after `pos` starts: two framing
/// bytes `D5 AA` followed by `96` or `B5`.  When the two framing bytes match
/// but the third byte does not, the search goes on from that third byte.
pub open spec fn spec_find_prologue(data: Seq<u8>, pos: int) -> Option<int>
    decreases data.len() - pos,
{
    if pos < 0 || pos + 2 > data.len() {
        None
    } else if data[pos] == 0xD5 && data[pos + 1] == 0xAA {
        if pos + 3 <= data.len() && (data[pos + 2] == 0x96 || data[pos + 2] == 0xB5) {
            Some(pos)
        } else if pos + 3 > data.len() {
            None
        } else {
            spec_find_prologue(data, pos + 2)
        }
    } else {
        spec_find_prologue(data, pos + 1)
    }
}

/// Find the first sector address prologue in the data.  Returns the position
/// where the three prologue bytes start, and the position after them.
pub fn parse_prologue(data: &[u8], pos: usize) -> (r: Result<(usize, usize), Error>)
    ensures
        r is Ok <==> spec_find_prologue(data@, pos as int) is Some,
        r matches Ok((start, new_pos)) ==> spec_find_prologue(data@, pos as int) == Some(
            start as int,
        ) && new_pos == start + 3 && start + 3 <= data@.len() && (data@[start + 2] == 0x96
            || data@[start + 2] == 0xB5),
        r matches Err(e) ==> e.kind matches ErrorKind::Message(_),
{
    let mut cur: usize = pos;
    loop
        invariant_except_break
            pos <= cur,
            spec_find_prologue(data@, pos as int) == spec_find_prologue(data@, cur as int),
        ensures
            spec_find_prologue(data@, pos as int) == spec_find_prologue(data@, cur as int),
            cur + 2 <= data@.len() && data@[cur as int] == 0xD5 && data@[cur + 1] == 0xAA && cur + 3
                <= data@.len() && (data@[cur + 2] == 0x96 || data@[cur + 2] == 0xB5),
        decreases data@.len() - cur,
    {
        if cur >= data.len() || data.len() - cur < 2 {
            return Err(Error::new(ErrorKind::new("Parsing requires more data")));
        }
        if data[cur] == 0xD5 && data[cur + 1] == 0xAA {
            if data.len() - cur < 3 {
                return Err(Error::new(ErrorKind::new("Parsing requires more data")));
            }
            if data[cur + 2] == 0x96 || data[cur + 2] == 0xB5 {
                break;
            }
            cur = cur + 2;
        } else {
            cur = cur + 1;
        }
    }
    let n = data.len();
    proof {
        assert(cur + 3 <= n);
    }
    Ok((cur, cur + 3))
}

/// Search for an address prologue in the image.  If one is found, return the
/// byte indicating the type of the prologue.
pub fn recognize_prologue(data: &[u8]) -> (r: Option<u8>)
    ensures
        r is Some <==> spec_find_prologue(data@, 0) is Some,
        r matches Some(b) ==> (spec_find_prologue(data@, 0) matches Some(q) && b == data@[q + 2])
            && (b == 0x96 || b == 0xB5),
{
    let _n = data.len();
    match parse_prologue(data, 0) {
        Ok((start, _)) => Some(data[start + 2]),
        Err(_) => None,
    }
}

/// Where the first occurrence of a three-byte pattern at or after `pos`
/// starts.
pub open spec fn spec_find_pattern3(data: Seq<u8>, pos: int, p0: u8, p1: u8, p2: u8) -> Option<int>
    decreases data.len() - pos,
{
    if pos < 0 || pos + 3 > data.len() {
        None
    } else if data[pos] == p0 && data[pos + 1] == p1 && data[pos + 2] == p2 {
        Some(pos)
    } else {
        spec_find_pattern3(data, pos + 1, p0, p1, p2)
    }
}

/// Find the first occurrence of a three-byte pattern.
fn find_pattern3(data: &[u8], pos: usize, p0: u8, p1: u8, p2: u8) -> (r: Option<usize>)
    ensures
        r is Some <==> spec_find_pattern3(data@, pos as int, p0, p1, p2) is Some,
        r matches Some(q) ==> spec_find_pattern3(data@, pos as int, p0, p1, p2) == Some(q as int)
            && pos <= q && q + 3 <= data@.len() && data@[q as int] == p0 && data@[q + 1] == p1
            && data@[q + 2] == p2,
{
    let mut cur: usize = pos;
    loop
        invariant_except_break
            pos <= cur,
            spec_find_pattern3(data@, pos as int, p0, p1, p2) == spec_find_pattern3(
                data@,
                cur as int,
                p0,
                p1,
                p2,
            ),
        ensures
            spec_find_pattern3(data@, pos as int, p0, p1, p2) == spec_find_pattern3(
                data@,
                cur as int,
                p0,
                p1,
                p2,
            ),
            pos <= cur,
            cur + 3 <= data@.len() && data@[cur as int] == p0 && data@[cur + 1] == p1 && data@[cur
                + 2] == p2,
        decreases data@.len() - cur,
    {
        if cur >= data.len() || data.len() - cur < 3 {
            return None;
        }
        if data[cur] == p0 && data[cur + 1] == p1 && data[cur + 2] == p2 {
            break;
        }
        cur = cur + 1;
    }
    Some(cur)
}

/// The address field whose prologue starts at `q`: four 4-and-4 encoded
/// bytes follow the three prologue bytes.
pub open spec fn spec_address_field_at(data: Seq<u8>, q: int) -> AddressField {
    AddressField {
        volume: spec_4_and_4(data[q + 3], data[q + 4]),
        track: spec_4_and_4(data[q + 5], data[q + 6]),
        sector: spec_4_and_4(data[q + 7], data[q + 8]),
        checksum: spec_4_and_4(data[q + 9], data[q + 10]),
    }
}

/// Whether the stored checksum of an address field matches the exclusive-or
/// of its volume, track and sector.
pub open spec fn spec_address_checksum_ok(a: AddressField) -> bool {
    (a.volume ^ a.track ^ a.sector) == a.checksum
}

/// Whether an address field can be found and parsed from `pos`: a `D5 AA
/// 96` prologue is found, fourteen bytes fit, and the checksum matches
/// unless checksum failures are ignored.
pub open spec fn spec_address_scan_ok(ignore: bool, data: Seq<u8>, pos: int) -> bool {
    match spec_find_pattern3(data, pos, 0xD5, 0xAA, 0x96) {
        Some(q) => q + 14 <= data.len() && (spec_address_checksum_ok(spec_address_field_at(data, q))
            || ignore),
        None => false,
    }
}

/// Where the address field found from `pos` ends.
pub open spec fn spec_address_scan_end(data: Seq<u8>, pos: int) -> int {
    match spec_find_pattern3(data, pos, 0xD5, 0xAA, 0x96) {
        Some(q) => q + 14,
        None => data.len() as int,
    }
}

/// The address field found from `pos`.
pub open spec fn spec_address_scan_field(data: Seq<u8>, pos: int) -> AddressField {
    match spec_find_pattern3(data, pos, 0xD5, 0xAA, 0x96) {
        Some(q) => spec_address_field_at(data, q),
        None => AddressField { volume: 0, track: 0, sector: 0, checksum: 0 },
    }
}

/// Find and parse an address field in the nibblized image: a `D5 AA 96`
/// prologue, four 4-and-4 encoded bytes for volume, track, sector and
/// checksum, and a three-byte epilogue.
///
/// The computed checksum is the exclusive-or of volume, track and sector;
/// when it differs from the stored checksum the decode fails, unless
/// checksum failures are ignored by configuration.
pub fn find_and_parse_address_field(config: &crate::config::Config, data: &[u8], pos: usize) -> (r:
    Result<(AddressField, usize), Error>)
    ensures
        r is Ok <==> spec_address_scan_ok(config.ignore_checksums, data@, pos as int),
        r matches Ok((a, new_pos)) ==> a == spec_address_scan_field(data@, pos as int) && new_pos
            == spec_address_scan_end(data@, pos as int) && pos + 14 <= new_pos <= data@.len(),
        !config.ignore_checksums ==> match spec_find_pattern3(data@, pos as int, 0xD5, 0xAA, 0x96) {
            Some(q) => {
                let a = spec_address_field_at(data@, q);
                q + 14 <= data@.len() && !spec_address_checksum_ok(a) ==> (r matches Err(e)
                    && e.kind matches ErrorKind::Invalid(InvalidErrorKind::Invalid(m)) && m@
                    == "Address field computed checksum not equal to disk checksum: "@
                    + spec_dec_digits((a.volume ^ a.track ^ a.sector) as nat) + " "@
                    + spec_dec_digits(a.checksum as nat))
            },
            None => true,
        },
{
    let _n = data.len();
    let q = match find_pattern3(data, pos, 0xD5, 0xAA, 0x96) {
        Some(q) => q,
        None => {
            return Err(Error::new(ErrorKind::new("Parsing requires more data")));
        },
    };
    let p = q + 3;
    let short = Err(Error::new(ErrorKind::new("Parsing requires more data")));
    let (volume, p) = match parse_nibble_byte_4_and_4(data, p) {
        Ok(v) => v,
        Err(_) => {
            return short;
        },
    };
    let (track, p) = match parse_nibble_byte_4_and_4(data, p) {
        Ok(v) => v,
        Err(_) => {
            return short;
        },
    };
    let (sector, p) = match parse_nibble_byte_4_and_4(data, p) {
        Ok(v) => v,
        Err(_) => {
            return short;
        },
    };
    let (checksum, p) = match parse_nibble_byte_4_and_4(data, p) {
        Ok(v) => v,
        Err(_) => {
            return short;
        },
    };
    if p > data.len() || data.len() - p < 3 {
        return short;
    }
    let epilogue_end = p + 3;

    let computed_checksum = volume ^ track ^ sector;
    let address_field = AddressField { volume, track, sector, checksum };

    if computed_checksum != checksum && !config.ignore_checksums {
        let mut m = "Address field computed checksum not equal to disk checksum: ".to_owned();
        let d1 = crate::text::u64_to_dec_string(computed_checksum as u64);
        m.append(d1.as_str());
        m.append(" ");
        let d2 = crate::text::u64_to_dec_string(checksum as u64);
        m.append(d2.as_str());
        return Err(Error::new(ErrorKind::Invalid(InvalidErrorKind::Invalid(m))));
    }

    Ok((address_field, epilogue_end))
}

/// Whether a data field can be found and parsed from `pos`: a `D5 AA AD`
/// prologue is found and 349 bytes fit from its start.
pub open spec fn spec_data_scan_ok(data: Seq<u8>, pos: int) -> bool {
    match spec_find_pattern3(data, pos, 0xD5, 0xAA, 0xAD) {
        Some(q) => q + 349 <= data.len(),
        None => false,
    }
}

/// Where the data field found from `pos` ends.
pub open spec fn spec_data_scan_end(data: Seq<u8>, pos: int) -> int {
    match spec_find_pattern3(data, pos, 0xD5, 0xAA, 0xAD) {
        Some(q) => q + 349,
        None => data.len() as int,
    }
}

/// The 342 encoded bytes of the data field found from `pos`.
pub open spec fn spec_data_scan_bytes(data: Seq<u8>, pos: int) -> Seq<u8> {
    match spec_find_pattern3(data, pos, 0xD5, 0xAA, 0xAD) {
        Some(q) => data.subrange(q + 3, q + 345),
        None => Seq::empty(),
    }
}

/// The checksum byte of the data field found from `pos`.
pub open spec fn spec_data_scan_checksum(data: Seq<u8>, pos: int) -> u8 {
    match spec_find_pattern3(data, pos, 0xD5, 0xAA, 0xAD) {
        Some(q) => data[q + 345],
        None => 0,
    }
}

/// Find and parse a data field in the nibblized image: a `D5 AA AD`
/// prologue, 342 encoded bytes, one checksum byte, and a three-byte
/// epilogue, which is not verified.
pub fn find_and_parse_data_field(data: &[u8], pos: usize) -> (r: Result<(DataField, usize), Error>)
    ensures
        r is Ok <==> spec_data_scan_ok(data@, pos as int),
        r matches Ok((df, new_pos)) ==> df.data@ == spec_data_scan_bytes(data@, pos as int)
            && df.data@.len() == 342 && df.checksum == spec_data_scan_checksum(data@, pos as int)
            && new_pos == spec_data_scan_end(data@, pos as int) && pos + 349 <= new_pos
            <= data@.len(),
        r matches Err(e) ==> e.kind matches ErrorKind::Message(_),
{
    let short = Err(Error::new(ErrorKind::new("Parsing requires more data")));
    let _n = data.len();
    let q = match find_pattern3(data, pos, 0xD5, 0xAA, 0xAD) {
        Some(q) => q,
        None => {
            return short;
        },
    };
    let (field_data, p) = match crate::bytes::take_bytes(data, q + 3, 342) {
        Some(v) => v,
        None => {
            return short;
        },
    };
    let (checksum, p) = match crate::bytes::read_u8(data, p) {
        Some(v) => v,
        None => {
            return short;
        },
    };
    if p > data.len() || data.len() - p < 3 {
        return short;
    }
    Ok((DataField { data: field_data, checksum }, p + 3))
}

/// A field: the address field naming a sector, and the data field holding
/// its encoded contents.
pub struct Field {
    /// The address field: where this sector lives on the disk, with its
    /// checksum.
    pub address_field: AddressField,
    /// The data field: the encoded data and its checksum.
    pub data_field: DataField,
}

/// Whether a whole field pair can be found and parsed from `pos`.
pub open spec fn spec_nib_sector_ok(ignore: bool, data: Seq<u8>, pos: int) -> bool {
    spec_address_scan_ok(ignore, data, pos) && spec_data_scan_ok(
        data,
        spec_address_scan_end(data, pos),
    )
}

/// Where the field pair found from `pos` ends.
pub open spec fn spec_nib_sector_end(data: Seq<u8>, pos: int) -> int {
    spec_data_scan_end(data, spec_address_scan_end(data, pos))
}

/// Parse an address field and a data field.
pub fn parse_nib_sector(config: &crate::config::Config, data: &[u8], pos: usize) -> (r: Result<
    (Field, usize),
    Error,
>)
    ensures
        r is Ok <==> spec_nib_sector_ok(config.ignore_checksums, data@, pos as int),
        r matches Ok((f, new_pos)) ==> f.address_field == spec_address_scan_field(
            data@,
            pos as int,
        ) && f.data_field.data@ == spec_data_scan_bytes(
            data@,
            spec_address_scan_end(data@, pos as int),
        ) && f.data_field.data@.len() == 342 && f.data_field.checksum == spec_data_scan_checksum(
            data@,
            spec_address_scan_end(data@, pos as int),
        ) && new_pos == spec_nib_sector_end(data@, pos as int) && new_pos > pos,
{
    let (header, p) = match find_and_parse_address_field(config, data, pos) {
        Ok(v) => v,
        Err(e) => {
            return Err(e);
        },
    };
    let (data_field, p2) = match find_and_parse_data_field(data, p) {
        Ok(v) => v,
        Err(e) => {
            return Err(e);
        },
    };
    Ok((Field { address_field: header, data_field }, p2))
}

/// One decoded sector of a nibble disk, addressed by volume, track and
/// sector number.
pub struct NibbleSector {
    /// The volume the sector belongs to.
    pub volume: u8,
    /// The track the sector belongs to.
    pub track: u8,
    /// The sector number.
    pub sector: u8,
    /// The 256 bytes of decoded sector data.
    pub data: Vec<u8>,
}

/// The composite ordering key of a sector address: volume first, then
/// track, then sector.
pub open spec fn spec_nib_key(volume: u8, track: u8, sector: u8) -> int {
    volume * 0x10000 + track * 0x100 + sector
}

/// A nibble encoded disk: its decoded sectors in ascending order of volume,
/// track and sector.
pub struct NibbleDisk {
    /// The decoded sectors, ascending by volume, then track, then sector,
    /// with no address twice.
    pub sectors: Vec<NibbleSector>,
}

/// Whether a run of decoded sectors holds one with the given address.
pub open spec fn spec_sectors_contains(s: Seq<NibbleSector>, volume: u8, track: u8, sector: u8) -> bool {
    exists|i: int|
        0 <= i < s.len() && (#[trigger] s[i]).volume == volume && s[i].track == track
            && s[i].sector == sector
}

impl NibbleDisk {
    /// The sectors are strictly ascending by their composite key; in
    /// particular every address occurs at most once.
    pub open spec fn spec_sorted(self) -> bool {
        forall|i: int, j: int|
            0 <= i < j < self.sectors@.len() ==> spec_nib_key(
                (#[trigger] self.sectors@[i]).volume,
                self.sectors@[i].track,
                self.sectors@[i].sector,
            ) < spec_nib_key(
                (#[trigger] self.sectors@[j]).volume,
                self.sectors@[j].track,
                self.sectors@[j].sector,
            )
    }

    /// Whether the disk holds a sector with the given address.
    pub open spec fn spec_contains(self, volume: u8, track: u8, sector: u8) -> bool {
        spec_sectors_contains(self.sectors@, volume, track, sector)
    }
}

/// One field pair found while scanning a nibble image.
pub struct SpecField {
    /// The address field of the pair.
    pub address: AddressField,
    /// The 342 encoded data bytes of the pair.
    pub data: Seq<u8>,
    /// The stored data checksum of the pair.
    pub checksum: u8,
}

/// The field pairs found by repeatedly scanning the image from `pos`: the
/// scan stops at the first position where no further pair parses.
pub open spec fn spec_nib_scan(ignore: bool, data: Seq<u8>, pos: int, fuel: nat) -> Seq<SpecField>
    decreases fuel,
{
    if fuel == 0 || !spec_nib_sector_ok(ignore, data, pos) {
        Seq::empty()
    } else {
        let addr_end = spec_address_scan_end(data, pos);
        seq![
            SpecField {
                address: spec_address_scan_field(data, pos),
                data: spec_data_scan_bytes(data, addr_end),
                checksum: spec_data_scan_checksum(data, addr_end),
            },
        ] + spec_nib_scan(ignore, data, spec_nib_sector_end(data, pos), (fuel - 1) as nat)
    }
}

/// All the field pairs of a nibble image.
pub open spec fn spec_nib_fields(ignore: bool, data: Seq<u8>) -> Seq<SpecField> {
    spec_nib_scan(ignore, data, 0, (data.len() + 1) as nat)
}

/// Whether a run of fields holds one with the given address.
pub open spec fn spec_scan_contains(fields: Seq<SpecField>, volume: u8, track: u8, sector: u8) -> bool {
    exists|i: int|
        0 <= i < fields.len() && (#[trigger] fields[i]).address.volume == volume
            && fields[i].address.track == track && fields[i].address.sector == sector
}

/// The first field of a run with the given address.
pub open spec fn spec_first_field(fields: Seq<SpecField>, volume: u8, track: u8, sector: u8) -> SpecField
    decreases fields.len(),
{
    if fields.len() == 0 {
        SpecField { address: AddressField { volume: 0, track: 0, sector: 0, checksum: 0 }, data: Seq::empty(), checksum: 0 }
    } else if fields.first().address.volume == volume && fields.first().address.track == track
        && fields.first().address.sector == sector {
        fields.first()
    } else {
        spec_first_field(fields.drop_first(), volume, track, sector)
    }
}

/// Appending a field leaves the first field of every already-present
/// address unchanged, and makes the new field the first of its address when
/// that address was absent.
proof fn lemma_first_field_push(fields: Seq<SpecField>, f: SpecField, volume: u8, track: u8, sector: u8)
    ensures
        spec_scan_contains(fields.push(f), volume, track, sector) == (spec_scan_contains(
            fields,
            volume,
            track,
            sector,
        ) || (f.address.volume == volume && f.address.track == track && f.address.sector
            == sector)),
        spec_scan_contains(fields, volume, track, sector) ==> spec_first_field(
            fields.push(f),
            volume,
            track,
            sector,
        ) == spec_first_field(fields, volume, track, sector),
        !spec_scan_contains(fields, volume, track, sector) && f.address.volume == volume
            && f.address.track == track && f.address.sector == sector ==> spec_first_field(
            fields.push(f),
            volume,
            track,
            sector,
        ) == f,
    decreases fields.len(),
{
    if spec_scan_contains(fields.push(f), volume, track, sector) {
        let i = choose|i: int|
            0 <= i < fields.push(f).len() && (#[trigger] fields.push(f)[i]).address.volume == volume
                && fields.push(f)[i].address.track == track && fields.push(f)[i].address.sector
                == sector;
        if i < fields.len() {
            assert(fields[i] == fields.push(f)[i]);
        }
    }
    if spec_scan_contains(fields, volume, track, sector) {
        let i = choose|i: int|
            0 <= i < fields.len() && (#[trigger] fields[i]).address.volume == volume
                && fields[i].address.track == track && fields[i].address.sector == sector;
        assert(fields.push(f)[i] == fields[i]);
    }
    if fields.len() == 0 {
        assert(fields.push(f).first() == f);
        assert(fields.push(f).drop_first() =~= Seq::empty());
    } else {
        assert(fields.push(f).first() == fields.first());
        assert(fields.push(f).drop_first() =~= fields.drop_first().push(f));
        lemma_first_field_push(fields.drop_first(), f, volume, track, sector);
        if !(fields.first().address.volume == volume && fields.first().address.track == track
            && fields.first().address.sector == sector) {
            assert(spec_scan_contains(fields, volume, track, sector) == spec_scan_contains(
                fields.drop_first(),
                volume,
                track,
                sector,
            )) by {
                if spec_scan_contains(fields, volume, track, sector) {
                    let i = choose|i: int|
                        0 <= i < fields.len() && (#[trigger] fields[i]).address.volume == volume
                            && fields[i].address.track == track && fields[i].address.sector
                            == sector;
                    assert(fields.drop_first()[i - 1] == fields[i]);
                }
                if spec_scan_contains(fields.drop_first(), volume, track, sector) {
                    let i = choose|i: int|
                        0 <= i < fields.drop_first().len() && (#[trigger] fields.drop_first()[i]).address.volume
                            == volume && fields.drop_first()[i].address.track == track
                            && fields.drop_first()[i].address.sector == sector;
                    assert(fields[i + 1] == fields.drop_first()[i]);
                }
            }
        }
    }
}

/// Whether inserting a run of fields into a disk succeeds, given the fields
/// already inserted: a field with a fresh address must decode with a zero
/// checksum, unless checksum failures are ignored.  A field whose address
/// was already seen is skipped, so its checksum does not matter.
pub open spec fn spec_scan_insert_ok(ignore: bool, fields: Seq<SpecField>, done: Seq<SpecField>) -> bool
    decreases fields.len(),
{
    if fields.len() == 0 {
        true
    } else {
        let f = fields.first();
        &&& (!spec_scan_contains(done, f.address.volume, f.address.track, f.address.sector) ==> (
        spec_build_checksum(f.data, f.checksum) == 0 || ignore))
        &&& spec_scan_insert_ok(ignore, fields.drop_first(), done.push(f))
    }
}

/// Insert a decoded sector into the sorted sector list at its place.
fn insert_nibble_sector(sectors: &mut Vec<NibbleSector>, ns: NibbleSector) -> (idx: usize)
    requires
        forall|i: int, j: int|
            0 <= i < j < old(sectors)@.len() ==> spec_nib_key(
                (#[trigger] old(sectors)@[i]).volume,
                old(sectors)@[i].track,
                old(sectors)@[i].sector,
            ) < spec_nib_key(
                (#[trigger] old(sectors)@[j]).volume,
                old(sectors)@[j].track,
                old(sectors)@[j].sector,
            ),
        forall|i: int|
            0 <= i < old(sectors)@.len() ==> spec_nib_key(
                (#[trigger] old(sectors)@[i]).volume,
                old(sectors)@[i].track,
                old(sectors)@[i].sector,
            ) != spec_nib_key(ns.volume, ns.track, ns.sector),
    ensures
        0 <= idx <= old(sectors)@.len(),
        final(sectors)@ == old(sectors)@.insert(idx as int, ns),
        forall|i: int, j: int|
            0 <= i < j < final(sectors)@.len() ==> spec_nib_key(
                (#[trigger] final(sectors)@[i]).volume,
                final(sectors)@[i].track,
                final(sectors)@[i].sector,
            ) < spec_nib_key(
                (#[trigger] final(sectors)@[j]).volume,
                final(sectors)@[j].track,
                final(sectors)@[j].sector,
            ),
        forall|v: u8, t: u8, sec: u8|
            spec_sectors_contains(final(sectors)@, v, t, sec) == (spec_sectors_contains(
                old(sectors)@,
                v,
                t,
                sec,
            ) || (ns.volume == v && ns.track == t && ns.sector == sec)),
        forall|i: int|
            0 <= i < final(sectors)@.len() ==> (#[trigger] final(sectors)@[i]) == ns || exists|j: int|
                0 <= j < old(sectors)@.len() && old(sectors)@[j] == final(sectors)@[i],
{
    let key: u32 = (ns.volume as u32) * 0x10000 + (ns.track as u32) * 0x100 + (ns.sector as u32);
    let mut idx: usize = 0;
    while idx < sectors.len() && (sectors[idx].volume as u32) * 0x10000 + (sectors[idx].track
        as u32) * 0x100 + (sectors[idx].sector as u32) < key
        invariant
            idx <= sectors@.len(),
            key == spec_nib_key(ns.volume, ns.track, ns.sector),
            forall|i: int|
                0 <= i < idx ==> spec_nib_key(
                    (#[trigger] sectors@[i]).volume,
                    sectors@[i].track,
                    sectors@[i].sector,
                ) < key,
        decreases sectors@.len() - idx,
    {
        idx = idx + 1;
    }
    proof {
        assert(forall|i: int|
            idx <= i < sectors@.len() ==> spec_nib_key(
                (#[trigger] sectors@[i]).volume,
                sectors@[i].track,
                sectors@[i].sector,
            ) > spec_nib_key(ns.volume, ns.track, ns.sector));
    }
    sectors.insert(idx, ns);
    proof {
        assert(forall|i: int|
            0 <= i < sectors@.len() ==> (#[trigger] sectors@[i]) == if i < idx {
                old(sectors)@[i]
            } else if i == idx {
                ns
            } else {
                old(sectors)@[i - 1]
            });
        assert forall|v: u8, t: u8, sec: u8|
            spec_sectors_contains(sectors@, v, t, sec) == (spec_sectors_contains(
                old(sectors)@,
                v,
                t,
                sec,
            ) || (ns.volume == v && ns.track == t && ns.sector == sec)) by {
            if spec_sectors_contains(sectors@, v, t, sec) {
                let i = choose|i: int|
                    0 <= i < sectors@.len() && (#[trigger] sectors@[i]).volume == v
                        && sectors@[i].track == t && sectors@[i].sector == sec;
                if i < idx {
                    assert(old(sectors)@[i].volume == v && old(sectors)@[i].track == t && old(
                        sectors,
                    )@[i].sector == sec);
                } else if i > idx {
                    assert(old(sectors)@[i - 1].volume == v && old(sectors)@[i - 1].track == t
                        && old(sectors)@[i - 1].sector == sec);
                }
            }
            if spec_sectors_contains(old(sectors)@, v, t, sec) {
                let j = choose|j: int|
                    0 <= j < old(sectors)@.len() && (#[trigger] old(sectors)@[j]).volume == v
                        && old(sectors)@[j].track == t && old(sectors)@[j].sector == sec;
                if j < idx {
                    assert(sectors@[j].volume == v && sectors@[j].track == t && sectors@[j].sector
                        == sec);
                } else {
                    assert(sectors@[j + 1].volume == v && sectors@[j + 1].track == t && sectors@[j
                        + 1].sector == sec);
                }
            }
            if ns.volume == v && ns.track == t && ns.sector == sec {
                assert(sectors@[idx as int].volume == v && sectors@[idx as int].track == t
                    && sectors@[idx as int].sector == sec);
            }
        }
        assert forall|i: int|
            0 <= i < sectors@.len() implies (#[trigger] sectors@[i]) == ns || exists|j: int|
                0 <= j < old(sectors)@.len() && old(sectors)@[j] == sectors@[i] by {
            if i < idx {
                assert(old(sectors)@[i] == sectors@[i]);
            } else if i > idx {
                assert(old(sectors)@[i - 1] == sectors@[i]);
            }
        }
    }
    idx
}

/// Parse an entire nibble encoded disk: scan for address and data field
/// pairs until none is found, decode each newly seen sector, and keep the
/// first sector written for each address.  A newly seen sector whose data
/// checksum fails ends the decode, unless checksum failures are ignored.
pub fn parse_nib_disk(config: &crate::config::Config, data: &[u8]) -> (r: Result<NibbleDisk, Error>)
    ensures
        r is Ok <==> spec_scan_insert_ok(
            config.ignore_checksums,
            spec_nib_fields(config.ignore_checksums, data@),
            Seq::empty(),
        ),
        r matches Ok(disk) ==> {
            let fields = spec_nib_fields(config.ignore_checksums, data@);
            &&& disk.spec_sorted()
            &&& forall|v: u8, t: u8, sec: u8|
                disk.spec_contains(v, t, sec) == spec_scan_contains(fields, v, t, sec)
            &&& forall|i: int|
                0 <= i < disk.sectors@.len() ==> (#[trigger] disk.sectors@[i]).data@
                    == spec_transform_data_field(
                    spec_first_field(
                        fields,
                        disk.sectors@[i].volume,
                        disk.sectors@[i].track,
                        disk.sectors@[i].sector,
                    ).data,
                )
        },
        r matches Err(e) ==> e.kind matches ErrorKind::Invalid(InvalidErrorKind::Checksum),
{
    let ghost ignore = config.ignore_checksums;
    let ghost fields = spec_nib_fields(ignore, data@);
    let ghost nfuel = (data@.len() + 1) as nat;
    let mut disk = NibbleDisk { sectors: Vec::new() };
    let mut pos: usize = 0;
    let ghost mut done: Seq<SpecField> = Seq::empty();

    loop
        invariant_except_break
            ignore == config.ignore_checksums,
            fields == spec_nib_fields(ignore, data@),
            nfuel == data@.len() + 1,
            pos <= data@.len(),
            done.len() <= pos,
            done + spec_nib_scan(ignore, data@, pos as int, (nfuel - done.len()) as nat) == fields,
            spec_scan_insert_ok(ignore, fields, Seq::empty()) <==> spec_scan_insert_ok(
                ignore,
                spec_nib_scan(ignore, data@, pos as int, (nfuel - done.len()) as nat),
                done,
            ),
            disk.spec_sorted(),
            forall|v: u8, t: u8, sec: u8|
                disk.spec_contains(v, t, sec) == spec_scan_contains(done, v, t, sec),
            forall|i: int|
                0 <= i < disk.sectors@.len() ==> (#[trigger] disk.sectors@[i]).data@
                    == spec_transform_data_field(
                    spec_first_field(
                        done,
                        disk.sectors@[i].volume,
                        disk.sectors@[i].track,
                        disk.sectors@[i].sector,
                    ).data,
                ) && spec_scan_contains(
                    done,
                    disk.sectors@[i].volume,
                    disk.sectors@[i].track,
                    disk.sectors@[i].sector,
                ),
        ensures
            done == fields,
            spec_scan_insert_ok(ignore, fields, Seq::empty()),
            disk.spec_sorted(),
            forall|v: u8, t: u8, sec: u8|
                disk.spec_contains(v, t, sec) == spec_scan_contains(done, v, t, sec),
            forall|i: int|
                0 <= i < disk.sectors@.len() ==> (#[trigger] disk.sectors@[i]).data@
                    == spec_transform_data_field(
                    spec_first_field(
                        done,
                        disk.sectors@[i].volume,
                        disk.sectors@[i].track,
                        disk.sectors@[i].sector,
                    ).data,
                ),
        decreases data@.len() - pos,
    {
        let ghost rem = spec_nib_scan(ignore, data@, pos as int, (nfuel - done.len()) as nat);
        let (field, np) = match parse_nib_sector(config, data, pos) {
            Ok(v) => v,
            Err(_) => {
                proof {
                    assert(rem =~= Seq::<SpecField>::empty());
                    assert(done + rem =~= done);
                }
                break;
            },
        };
        let ghost f = SpecField {
            address: field.address_field,
            data: field.data_field.data@,
            checksum: field.data_field.checksum,
        };
        proof {
            assert(nfuel - done.len() > 0);
            assert(rem.first() == f);
            assert(rem.drop_first() =~= spec_nib_scan(
                ignore,
                data@,
                np as int,
                (nfuel - done.len() - 1) as nat,
            ));
        }

        let volume = field.address_field.volume;
        let track = field.address_field.track;
        let sector_number = field.address_field.sector;

        // First writer wins: a sector address already decoded is kept.
        let mut already: bool = false;
        let mut i: usize = 0;
        while i < disk.sectors.len()
            invariant
                i <= disk.sectors@.len(),
                already == exists|k: int|
                    0 <= k < i && (#[trigger] disk.sectors@[k]).volume == volume
                        && disk.sectors@[k].track == track && disk.sectors@[k].sector
                        == sector_number,
            decreases disk.sectors@.len() - i,
        {
            if disk.sectors[i].volume == volume && disk.sectors[i].track == track
                && disk.sectors[i].sector == sector_number {
                already = true;
            }
            i = i + 1;
        }

        if !already {
            let sector = match transform_data_field(config, &field.data_field) {
                Ok(s) => s,
                Err(e) => {
                    proof {
                        assert(!spec_scan_insert_ok(ignore, rem, done));
                    }
                    return Err(e);
                },
            };
            proof {
                assert(!disk.spec_contains(volume, track, sector_number));
                assert(forall|i: int|
                    0 <= i < disk.sectors@.len() ==> spec_nib_key(
                        (#[trigger] disk.sectors@[i]).volume,
                        disk.sectors@[i].track,
                        disk.sectors@[i].sector,
                    ) != spec_nib_key(volume, track, sector_number)) by {
                    assert forall|i: int|
                        0 <= i < disk.sectors@.len() implies spec_nib_key(
                        (#[trigger] disk.sectors@[i]).volume,
                        disk.sectors@[i].track,
                        disk.sectors@[i].sector,
                    ) != spec_nib_key(volume, track, sector_number) by {
                        if disk.sectors@[i].volume != volume || disk.sectors@[i].track != track
                            || disk.sectors@[i].sector != sector_number {
                        }
                    }
                }
            }
            let ns = NibbleSector { volume, track, sector: sector_number, data: sector.data };
            let ghost old_sectors = disk.sectors@;
            insert_nibble_sector(&mut disk.sectors, ns);
            proof {
                let ghost nsg = NibbleSector {
                    volume,
                    track,
                    sector: sector_number,
                    data: ns.data,
                };
                assert forall|i: int|
                    0 <= i < disk.sectors@.len() implies (#[trigger] disk.sectors@[i]).data@
                    == spec_transform_data_field(
                    spec_first_field(
                        done.push(f),
                        disk.sectors@[i].volume,
                        disk.sectors@[i].track,
                        disk.sectors@[i].sector,
                    ).data,
                ) && spec_scan_contains(
                    done.push(f),
                    disk.sectors@[i].volume,
                    disk.sectors@[i].track,
                    disk.sectors@[i].sector,
                ) by {
                    lemma_first_field_push(
                        done,
                        f,
                        disk.sectors@[i].volume,
                        disk.sectors@[i].track,
                        disk.sectors@[i].sector,
                    );
                    if disk.sectors@[i] == ns {
                    } else {
                        let j = choose|j: int|
                            0 <= j < old_sectors.len() && old_sectors[j] == disk.sectors@[i];
                    }
                }
                assert forall|v: u8, t: u8, sec: u8|
                    spec_sectors_contains(disk.sectors@, v, t, sec) == spec_scan_contains(
                    done.push(f),
                    v,
                    t,
                    sec,
                ) by {
                    lemma_first_field_push(done, f, v, t, sec);
                }
            }
        } else {
            proof {
                assert forall|v: u8, t: u8, sec: u8|
                    spec_sectors_contains(disk.sectors@, v, t, sec) == spec_scan_contains(
                    done.push(f),
                    v,
                    t,
                    sec,
                ) by {
                    lemma_first_field_push(done, f, v, t, sec);
                }
                assert forall|i: int|
                    0 <= i < disk.sectors@.len() implies (#[trigger] disk.sectors@[i]).data@
                    == spec_transform_data_field(
                    spec_first_field(
                        done.push(f),
                        disk.sectors@[i].volume,
                        disk.sectors@[i].track,
                        disk.sectors@[i].sector,
                    ).data,
                ) && spec_scan_contains(
                    done.push(f),
                    disk.sectors@[i].volume,
                    disk.sectors@[i].track,
                    disk.sectors@[i].sector,
                ) by {
                    lemma_first_field_push(
                        done,
                        f,
                        disk.sectors@[i].volume,
                        disk.sectors@[i].track,
                        disk.sectors@[i].sector,
                    );
                }
            }
        }
        proof {
            let ghost old_done = done;
            done = done.push(f);
            assert(done + rem.drop_first() =~= old_done + rem);
        }
        pos = np;
    }

    Ok(disk)
}

/// The encoded blocks a buffer nibblizes to: full 256-byte blocks are
/// encoded while more than 256 bytes follow, and one final block is encoded
/// starting 256 bytes before the position where that stopped.
pub open spec fn spec_nibblize_from(data: Seq<u8>, i: int) -> Seq<u8>
    decreases data.len() - i,
        when 0 <= i <= data.len()
{
    if i + 256 < data.len() {
        spec_encode_6_and_2(data.subrange(i, i + 256)) + spec_nibblize_from(data, i + 256)
    } else {
        let fi = if i > 0 {
            i - 256
        } else {
            0
        };
        spec_encode_6_and_2(data.subrange(fi, fi + 256))
    }
}

/// The encoded form of a whole buffer.
pub open spec fn spec_nibblize_data(data: Seq<u8>) -> Seq<u8> {
    spec_nibblize_from(data, 0)
}

/// Nibblize a slice of data: encode it block by block with the 6-and-2
/// algorithm.
pub fn nibblize_data(data: &[u8]) -> (r: Vec<u8>)
    requires
        data@.len() >= 256,
    ensures
        r@ == spec_nibblize_data(data@),
{
    let mut output_data: Vec<u8> = Vec::new();
    let mut i: usize = 0;
    while i < data.len() && data.len() - i > 256
        invariant
            data@.len() >= 256,
            i <= data@.len(),
            i % 256 == 0,
            output_data@ + spec_nibblize_from(data@, i as int) == spec_nibblize_data(data@),
        decreases data@.len() - i,
    {
        let ghost prefix = output_data@;
        let df = build_nibble_sector_at(data, i);
        let mut block = df.data;
        output_data.append(&mut block);
        proof {
            assert(output_data@ =~= prefix + spec_encode_6_and_2(
                data@.subrange(i as int, i + 256),
            ));
        }
        i = i + 256;
    }

    let fi: usize = if i > 0 {
        i - 256
    } else {
        0
    };
    let df = build_nibble_sector_at(data, fi);
    let mut block = df.data;
    let ghost prefix = output_data@;
    output_data.append(&mut block);
    proof {
        assert(output_data@ =~= prefix + spec_encode_6_and_2(data@.subrange(fi as int, fi + 256)));
    }
    output_data
}

/// Encode the 256-byte block starting at `start`.
fn build_nibble_sector_at(data: &[u8], start: usize) -> (df: DataField)
    requires
        start + 256 <= data@.len(),
    ensures
        df.data@ == spec_encode_6_and_2(data@.subrange(start as int, start + 256)),
        df.checksum == 0,
{
    let block = match crate::bytes::take_bytes(data, start, 256) {
        Some((block, _)) => block,
        None => Vec::new(),
    };
    let df = build_nibble_sector(block.as_slice());
    proof {
        assert(block@.take(256) =~= data@.subrange(start as int, start + 256));
    }
    df
}

} // verus!
