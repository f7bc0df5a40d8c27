//! STX disk sector structures and parsers.
use vstd::prelude::*;

verus! {

use crate::bytes::{read_u8, read_be_u16, read_le_u16, read_le_u32, take_bytes};
use crate::bytes::{spec_be_u16, spec_le_u16, spec_le_u32};
use crate::error::{Error, ErrorKind, InvalidErrorKind};
use crate::stx::spec_crc16_add_byte;

/// STXSectorHeader contains information about a single sector in a STX disk
/// image, 16 bytes on disk.
#[derive(Clone, Copy, Debug, PartialEq, Eq, Structural)]
pub struct STXSectorHeader {
    /// Offset of the sector data in the sector block, relative to the end of
    /// the sector headers and the fuzzy mask if one exists.
    pub data_offset: u32,
    /// Position in bits from the start of the track.
    pub bit_position: u16,
    /// Position of the start of the id field in milliseconds.
    pub read_time: u16,
    /// Track number of the address block identifying the sector.
    pub id_track: u8,
    /// Side of the disk from the address block identifying the sector.
    pub id_head: u8,
    /// Sector from the address block identifying the sector.
    pub id_sector: u8,
    /// Size of the sector from the address block: 2 means 512 bytes, 3 means
    /// 1024 bytes.
    pub id_size: u8,
    /// Address block CRC, stored big-endian.
    pub id_crc: u16,
    /// Floppy drive controller status register after reading the sector.
    pub fdc_status: u8,
    /// Reserved sector flags, always zero.
    pub reserved: u8,
}

/// A single sector on the disk, including the header.
pub struct STXSector {
    /// The sector header for this sector.
    pub header: STXSectorHeader,
}

/// How many bytes the sector size field of an address block stands for.
pub open spec fn spec_sector_size_as_bytes(size: u8) -> u16 {
    if size == 2 {
        512
    } else if size == 3 {
        1024
    } else {
        0
    }
}

/// Convert the sector size field to a number of bytes.
pub fn sector_size_as_bytes(size: u8) -> (r: u16)
    ensures
        r == spec_sector_size_as_bytes(size),
{
    match size {
        2 => 512,
        3 => 1024,
        _ => 0,
    }
}

/// The CCITT CRC-16 of a sector header's synthesised address block: the sync
/// marks `A1 A1 A1 FE` followed by the id track, head, sector and size, from
/// the initial state `0xFFFF`.
#[verifier::opaque]
pub open spec fn spec_sector_header_crc(h: STXSectorHeader) -> u16 {
    spec_crc16_add_byte(
        spec_crc16_add_byte(
            spec_crc16_add_byte(
                spec_crc16_add_byte(
                    spec_crc16_add_byte(
                        spec_crc16_add_byte(
                            spec_crc16_add_byte(spec_crc16_add_byte(0xFFFF, 0xA1), 0xA1),
                            0xA1,
                        ),
                        0xFE,
                    ),
                    h.id_track,
                ),
                h.id_head,
            ),
            h.id_sector,
        ),
        h.id_size,
    )
}

/// Calculate the CRC-16 value for the sector header.
pub fn calculate_crc16(sector_header: &STXSectorHeader) -> (r: u16)
    ensures
        r == spec_sector_header_crc(*sector_header),
{
    proof {
        reveal(spec_sector_header_crc);
    }
    let crc: u16 = 0xFFFF;

    let crc = crate::stx::crc16_add_byte(crc, 0xA1);
    let crc = crate::stx::crc16_add_byte(crc, 0xA1);
    let crc = crate::stx::crc16_add_byte(crc, 0xA1);
    let crc = crate::stx::crc16_add_byte(crc, 0xFE);

    let crc = crate::stx::crc16_add_byte(crc, sector_header.id_track);
    let crc = crate::stx::crc16_add_byte(crc, sector_header.id_head);
    let crc = crate::stx::crc16_add_byte(crc, sector_header.id_sector);
    crate::stx::crc16_add_byte(crc, sector_header.id_size)
}

impl STXSectorHeader {
    /// Whether the stored CRC matches the one computed over the address
    /// block fields.
    pub open spec fn spec_check(self) -> bool {
        spec_sector_header_crc(self) == self.id_crc
    }

    /// Sanity check for sector headers: the CRC must match.
    pub fn check(&self) -> (r: bool)
        ensures
            r == self.spec_check(),
    {
        let crc = calculate_crc16(self);
        crc == self.id_crc
    }
}

/// The sector header encoded at byte offset `pos`.
pub open spec fn spec_sector_header_at(data: Seq<u8>, pos: int) -> STXSectorHeader {
    STXSectorHeader {
        data_offset: spec_le_u32(data[pos], data[pos + 1], data[pos + 2], data[pos + 3]),
        bit_position: spec_le_u16(data[pos + 4], data[pos + 5]),
        read_time: spec_le_u16(data[pos + 6], data[pos + 7]),
        id_track: data[pos + 8],
        id_head: data[pos + 9],
        id_sector: data[pos + 10],
        id_size: data[pos + 11],
        id_crc: spec_be_u16(data[pos + 12], data[pos + 13]),
        fdc_status: data[pos + 14],
        reserved: data[pos + 15],
    }
}

/// Parse one STX sector header and validate its CRC.
///
/// Fails when fewer than 16 bytes remain, and with a checksum error when the
/// stored CRC does not match the one computed over the address block.
pub fn stx_sector_header_parser(data: &[u8], pos: usize) -> (r: Result<
    (STXSectorHeader, usize),
    Error,
>)
    ensures
        r is Ok <==> pos + 16 <= data@.len() && spec_sector_header_at(data@, pos as int).spec_check(),
        r matches Ok((h, new_pos)) ==> h == spec_sector_header_at(data@, pos as int) && new_pos
            == pos + 16 && spec_sector_header_crc(h) == h.id_crc,
        pos + 16 > data@.len() ==> (r matches Err(e) && e.kind matches ErrorKind::Message(_)),
        pos + 16 <= data@.len() && !spec_sector_header_at(data@, pos as int).spec_check() ==> (
        r matches Err(e) && e.kind matches ErrorKind::Invalid(InvalidErrorKind::Checksum)),
{
    let short = Err(Error::new(ErrorKind::new("Parsing requires more data")));
    let (data_offset, p) = match read_le_u32(data, pos) {
        Some(v) => v,
        None => {
            return short;
        },
    };
    let (bit_position, p) = match read_le_u16(data, p) {
        Some(v) => v,
        None => {
            return short;
        },
    };
    let (read_time, p) = match read_le_u16(data, p) {
        Some(v) => v,
        None => {
            return short;
        },
    };
    let (id_track, p) = match read_u8(data, p) {
        Some(v) => v,
        None => {
            return short;
        },
    };
    let (id_head, p) = match read_u8(data, p) {
        Some(v) => v,
        None => {
            return short;
        },
    };
    let (id_sector, p) = match read_u8(data, p) {
        Some(v) => v,
        None => {
            return short;
        },
    };
    let (id_size, p) = match read_u8(data, p) {
        Some(v) => v,
        None => {
            return short;
        },
    };
    let (id_crc, p) = match read_be_u16(data, p) {
        Some(v) => v,
        None => {
            return short;
        },
    };
    let (fdc_status, p) = match read_u8(data, p) {
        Some(v) => v,
        None => {
            return short;
        },
    };
    let (reserved, p) = match read_u8(data, p) {
        Some(v) => v,
        None => {
            return short;
        },
    };

    let sector_header = STXSectorHeader {
        data_offset,
        bit_position,
        read_time,
        id_track,
        id_head,
        id_sector,
        id_size,
        id_crc,
        fdc_status,
        reserved,
    };
    proof {
        assert(sector_header == spec_sector_header_at(data@, pos as int));
    }

    if !sector_header.check() {
        return Err(Error::new(ErrorKind::Invalid(InvalidErrorKind::Checksum)));
    }

    Ok((sector_header, p))
}

/// Whether one sector's data, addressed by its header relative to `base`,
/// lies within the input.
pub open spec fn spec_sector_data_in_range(data: Seq<u8>, base: int, h: STXSectorHeader) -> bool {
    base + h.data_offset + spec_sector_size_as_bytes(h.id_size) <= data.len()
}

/// The data of one sector, addressed by its header relative to `base`.
pub open spec fn spec_sector_data_at(data: Seq<u8>, base: int, h: STXSectorHeader) -> Seq<u8> {
    data.subrange(
        base + h.data_offset,
        base + h.data_offset + spec_sector_size_as_bytes(h.id_size),
    )
}

/// Parse all the sector data after the sector headers and fuzzy mask.
///
/// Every sector is sought from the same base position: its header's data
/// offset is relative to `pos`, and its length is given by the header's size
/// field.
pub fn stx_sector_data_parser(stx_sector_headers: &[STXSectorHeader], data: &[u8], pos: usize) -> (r:
    Result<Vec<Vec<u8>>, Error>)
    requires
        pos <= data@.len(),
    ensures
        r is Ok <==> forall|k: int|
            0 <= k < stx_sector_headers@.len() ==> spec_sector_data_in_range(
                data@,
                pos as int,
                stx_sector_headers@[k],
            ),
        r matches Ok(v) ==> v@.len() == stx_sector_headers@.len() && forall|k: int|
            0 <= k < v@.len() ==> v@[k]@ == spec_sector_data_at(
                data@,
                pos as int,
                stx_sector_headers@[k],
            ),
        r matches Err(e) ==> e.kind matches ErrorKind::Message(_),
{
    let mut all_sector_data: Vec<Vec<u8>> = Vec::new();
    let mut i: usize = 0;
    while i < stx_sector_headers.len()
        invariant
            pos <= data@.len(),
            i <= stx_sector_headers@.len(),
            all_sector_data@.len() == i,
            forall|k: int|
                0 <= k < i ==> spec_sector_data_in_range(
                    data@,
                    pos as int,
                    stx_sector_headers@[k],
                ),
            forall|k: int|
                0 <= k < i ==> all_sector_data@[k]@ == spec_sector_data_at(
                    data@,
                    pos as int,
                    stx_sector_headers@[k],
                ),
        decreases stx_sector_headers@.len() - i,
    {
        let header = &stx_sector_headers[i];
        let size = sector_size_as_bytes(header.id_size);
        let need: u64 = header.data_offset as u64 + size as u64;
        if ((data.len() - pos) as u64) < need {
            return Err(Error::new(ErrorKind::new("Parsing requires more data")));
        }
        let start: usize = pos + header.data_offset as usize;
        match take_bytes(data, start, size as usize) {
            Some((sector_data, _)) => {
                all_sector_data.push(sector_data);
            },
            None => {
                return Err(Error::new(ErrorKind::new("Parsing requires more data")));
            },
        }
        i = i + 1;
    }
    Ok(all_sector_data)
}

/// Plain ST disk image style sector dump.
pub struct STXPlainSector {
    /// The contents of the sectors, 512 bytes each.
    pub contents: Vec<Vec<u8>>,
}

/// Read in a single plain sector of data, 512 bytes long.
pub fn stx_sector_data_parser_plain(data: &[u8], pos: usize) -> (r: Result<(Vec<u8>, usize), Error>)
    ensures
        r is Ok <==> pos + 512 <= data@.len(),
        r matches Ok((sector, new_pos)) ==> sector@ == data@.subrange(pos as int, pos + 512)
            && new_pos == pos + 512,
        r matches Err(e) ==> e.kind matches ErrorKind::Message(_),
{
    match take_bytes(data, pos, 512) {
        Some((sector, new_pos)) => Ok((sector, new_pos)),
        None => Err(Error::new(ErrorKind::new("Parsing requires more data"))),
    }
}

/// Parse plain ST-style sector data: `n` consecutive sectors of 512 bytes.
pub fn stx_sector_parser_plain(n: usize, data: &[u8], pos: usize) -> (r: Result<
    (STXPlainSector, usize),
    Error,
>)
    requires
        n <= 0xFFFF,
    ensures
        r is Ok <==> pos + n * 512 <= data@.len(),
        r matches Ok((sectors, new_pos)) ==> sectors.contents@.len() == n && new_pos == pos + n
            * 512 && forall|k: int|
            0 <= k < n ==> sectors.contents@[k]@ == data@.subrange(
                pos + k * 512,
                pos + k * 512 + 512,
            ),
        r matches Err(e) ==> e.kind matches ErrorKind::Message(_),
{
    if pos > data.len() || ((data.len() - pos) as u64) < (n as u64) * 512 {
        proof {
            assert(pos + n * 512 > data@.len()) by (nonlinear_arith)
                requires
                    pos > data@.len() || ((data@.len() - pos) as u64) < (n as u64) * 512,
                    pos <= usize::MAX,
                    data@.len() <= usize::MAX,
            ;
        }
        return Err(Error::new(ErrorKind::new("Parsing requires more data")));
    }
    proof {
        assert(pos + n * 512 <= data@.len()) by (nonlinear_arith)
            requires
                pos <= data@.len(),
                ((data@.len() - pos) as u64) >= (n as u64) * 512,
                n <= usize::MAX,
        ;
    }
    let mut contents: Vec<Vec<u8>> = Vec::new();
    let mut i: usize = 0;
    let mut cur: usize = pos;
    while i < n
        invariant
            pos + n * 512 <= data@.len(),
            i <= n,
            cur == pos + i * 512,
            contents@.len() == i,
            forall|k: int|
                0 <= k < i ==> contents@[k]@ == data@.subrange(pos + k * 512, pos + k * 512 + 512),
        decreases n - i,
    {
        proof {
            assert(pos + i * 512 + 512 <= pos + n * 512) by (nonlinear_arith)
                requires
                    i < n,
            ;
        }
        match stx_sector_data_parser_plain(data, cur) {
            Ok((sector, new_pos)) => {
                contents.push(sector);
                cur = new_pos;
            },
            Err(e) => {
                return Err(e);
            },
        }
        i = i + 1;
    }
    Ok((STXPlainSector { contents }, cur))
}

/// Four bytes of sync marker at the start of a track, usually
/// `A1 A1 A1 FE`.
pub struct STXSyncMarker {
    /// The four sync marker bytes.
    pub sync_markers: Vec<u8>,
}

/// Read in the four sync markers at the start of the track image data.
pub fn stx_sync_markers_parser(data: &[u8], pos: usize) -> (r: Result<(STXSyncMarker, usize), Error>)
    ensures
        r is Ok <==> pos + 4 <= data@.len(),
        r matches Ok((m, new_pos)) ==> m.sync_markers@ == data@.subrange(pos as int, pos + 4)
            && new_pos == pos + 4,
        r matches Err(e) ==> e.kind matches ErrorKind::Message(_),
{
    match take_bytes(data, pos, 4) {
        Some((sync_markers, new_pos)) => Ok((STXSyncMarker { sync_markers }, new_pos)),
        None => Err(Error::new(ErrorKind::new("Parsing requires more data"))),
    }
}

/// The boot-sector words: 256 big-endian 16-bit words read from the first
/// 512 bytes.
pub open spec fn spec_boot_words(data: Seq<u8>) -> Seq<u16> {
    Seq::new(256, |k: int| spec_be_u16(data[2 * k], data[2 * k + 1]))
}

/// Get the 512 bytes of the boot sector as big-endian words.
pub fn parse_boot_sector_as_words(sector_data: &[u8]) -> (r: Result<(Vec<u16>, usize), Error>)
    ensures
        r is Ok <==> sector_data@.len() >= 512,
        r matches Ok((words, new_pos)) ==> words@ == spec_boot_words(sector_data@) && new_pos
            == 512,
        r matches Err(e) ==> e.kind matches ErrorKind::Message(_),
{
    if sector_data.len() < 512 {
        return Err(Error::new(ErrorKind::new("Parsing requires more data")));
    }
    let mut words: Vec<u16> = Vec::new();
    let mut pos: usize = 0;
    let mut i: usize = 0;
    while i < 256
        invariant
            sector_data@.len() >= 512,
            i <= 256,
            pos == 2 * i,
            words@.len() == i,
            forall|k: int|
                0 <= k < i ==> words@[k] == spec_be_u16(sector_data@[2 * k], sector_data@[2 * k + 1]),
        decreases 256 - i,
    {
        match read_be_u16(sector_data, pos) {
            Some((w, new_pos)) => {
                words.push(w);
                pos = new_pos;
            },
            None => {
                return Err(Error::new(ErrorKind::new("Parsing requires more data")));
            },
        }
        i = i + 1;
    }
    proof {
        assert(words@ =~= spec_boot_words(sector_data@));
    }
    Ok((words, 512))
}

/// The FAT-style boot-sector sum of the first `k` words: each word is added
/// modulo 0xFFFF.
pub open spec fn spec_boot_sum(data: Seq<u8>, k: nat) -> u32
    decreases k,
{
    if k == 0 {
        0
    } else {
        ((spec_boot_sum(data, (k - 1) as nat) + spec_be_u16(
            data[2 * (k - 1)],
            data[2 * k - 1],
        )) % 0xFFFF) as u32
    }
}

/// Return true if this is a boot sector: the checksum over the 256
/// big-endian words of the boot sector equals 0x1234.
pub fn calculate_boot_sector_sum_from_words(sector_data: &[u8]) -> (r: bool)
    requires
        sector_data@.len() >= 512,
    ensures
        r == (spec_boot_sum(sector_data@, 256) == 0x1234),
{
    let mut sum: u32 = 0;

    let words_result = parse_boot_sector_as_words(sector_data);

    match words_result {
        Ok((words, _)) => {
            let mut i: usize = 0;
            while i < words.len()
                invariant
                    words@ == spec_boot_words(sector_data@),
                    sector_data@.len() >= 512,
                    i <= 256,
                    sum == spec_boot_sum(sector_data@, i as nat),
                    sum < 0xFFFF,
                decreases words@.len() - i,
            {
                sum = (sum + words[i] as u32) % 0xFFFF;
                i = i + 1;
            }
        },
        Err(_) => {
            // Unreachable: the input is at least 512 bytes long.
        },
    }

    sum == 0x1234
}

/// The sum of the first `k` bytes of a sector.
pub open spec fn spec_boot_byte_sum(data: Seq<u8>, k: int) -> int
    decreases k,
{
    if k <= 0 {
        0
    } else {
        spec_boot_byte_sum(data, k - 1) + data[k - 1]
    }
}

/// Return true if this is a boot sector: the plain sum of its first 256
/// bytes, or of all of them when fewer, equals 0x1234.
pub fn calculate_boot_sector_sum(sector_data: &[u8]) -> (r: bool)
    ensures
        r == (spec_boot_byte_sum(
            sector_data@,
            if sector_data@.len() < 256 {
                sector_data@.len() as int
            } else {
                256
            },
        ) == 0x1234),
{
    let mut sum: u16 = 0;
    let n: usize = if sector_data.len() < 256 {
        sector_data.len()
    } else {
        256
    };
    let mut i: usize = 0;
    while i < n
        invariant
            n <= sector_data@.len(),
            n <= 256,
            i <= n,
            sum == spec_boot_byte_sum(sector_data@, i as int),
            sum <= i * 255,
        decreases n - i,
    {
        sum += sector_data[i] as u16;
        i = i + 1;
    }
    sum == 0x1234
}

} // verus!
