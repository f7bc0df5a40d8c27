//! Disk-level functions and data structures for Commodore D64 disk images.
//!
//! Most of the layout comes from the Commodore 1541 disk drive's
//! documentation: the Block Availability Map lives on track 18, and the
//! directory follows it.
use vstd::prelude::*;

verus! {

use crate::bytes::{read_u8, read_le_u16, spec_le_u16, take_bytes};
use crate::error::{Error, ErrorKind, InvalidErrorKind};
use vstd::string::StringExecFns;

/// The different DOS types.
#[derive(Clone, Copy, Debug, PartialEq, Eq, Structural)]
pub enum DOSType {
    /// Original CBM DOS.
    CBM,
}

/// Specifications for a VIC 1540/1541 single drive floppy disk.
pub struct VIC1540SingleDriveFloppyDisk {
    /// Total capacity of the disk.
    pub total_capacity: u32,
    /// Number of records per file.
    pub records_per_file: u32,
    /// Number of directory entries.
    pub directory_entries: u16,
    /// Number of sectors per track.
    pub sectors_per_track: u8,
    /// Number of bytes per sector, usually 256.
    pub bytes_per_sector: u16,
    /// Number of tracks on the disk, usually 35.
    pub tracks: u8,
    /// Total number of blocks.
    pub blocks: u16,
}

impl VIC1540SingleDriveFloppyDisk {
    /// The normal maximum specifications of a VIC 1540/1541 single drive
    /// floppy disk.
    pub fn standard() -> (d: VIC1540SingleDriveFloppyDisk)
        ensures
            d.total_capacity == 174848,
            d.records_per_file == 65536,
            d.directory_entries == 144,
            d.sectors_per_track == 17,
            d.bytes_per_sector == 256,
            d.tracks == 35,
            d.blocks == 683,
    {
        VIC1540SingleDriveFloppyDisk {
            total_capacity: 174848,
            records_per_file: 65536,
            directory_entries: 144,
            sectors_per_track: 17,
            bytes_per_sector: 256,
            tracks: 35,
            blocks: 683,
        }
    }
}

/// How many blocks a track holds.  The outer tracks carry more blocks than
/// the inner tracks: tracks 1 to 17 carry 21 sectors, 18 to 24 carry 19,
/// 25 to 30 carry 18, and 31 to 35 carry 17.
pub open spec fn spec_track_to_block_length(track: u8) -> Option<u8> {
    if 1 <= track <= 17 {
        Some(21u8)
    } else if 18 <= track <= 24 {
        Some(19u8)
    } else if 25 <= track <= 30 {
        Some(18u8)
    } else if 31 <= track <= 35 {
        Some(17u8)
    } else {
        None
    }
}

/// Mapping from track number to block count: the outer tracks contain 21
/// blocks, the innermost 17.  An out-of-range track number is an error.
pub fn track_to_block_length(track: u8) -> (r: Result<u8, String>)
    ensures
        r matches Ok(n) ==> spec_track_to_block_length(track) == Some(n),
        r is Err <==> spec_track_to_block_length(track) is None,
{
    if 1 <= track && track <= 17 {
        Ok(21)
    } else if 18 <= track && track <= 24 {
        Ok(19)
    } else if 25 <= track && track <= 30 {
        Ok(18)
    } else if 31 <= track && track <= 35 {
        Ok(17)
    } else {
        Err("Invalid track number: {track}".to_owned())
    }
}

/// The zero-based track a zero-based block number lies on.  The 17 outermost
/// tracks hold 21 blocks each, so blocks 0 to 356 lie on them; the next
/// seven tracks hold 19 each through block 489, the next six hold 18 each
/// through block 597, and the last five hold 17 each through block 682.
pub open spec fn spec_block_to_track(block: u16) -> Option<u16> {
    if block < 357 {
        Some((block / 21) as u16)
    } else if block < 490 {
        Some(((block - 357) / 19 + 17) as u16)
    } else if block < 598 {
        Some(((block - 490) / 18 + 24) as u16)
    } else if block < 683 {
        Some(((block - 598) / 17 + 30) as u16)
    } else {
        None
    }
}

/// Mapping from block number to track number, both zero-based.  An
/// out-of-range block number is an error.
pub fn block_to_track(block: u16) -> (r: Result<u16, String>)
    ensures
        r matches Ok(t) ==> spec_block_to_track(block) == Some(t),
        r is Err <==> spec_block_to_track(block) is None,
{
    if block < 357 {
        Ok(block / 21)
    } else if block < 490 {
        Ok((block - 357) / 19 + 17)
    } else if block < 598 {
        Ok((block - 490) / 18 + 24)
    } else if block < 683 {
        Ok((block - 598) / 17 + 30)
    } else {
        Err("Invalid track number: {track}".to_owned())
    }
}

/// What a run of PETSCII name bytes displays as.  Relied on from the
/// conversion wrapper below: the crate maps the bytes through its embedded
/// character table, so the result depends on the bytes alone.
pub uninterp spec fn petscii_display_of(bytes: Seq<u8>) -> Seq<char>;

/// Relies on forbidden_bands::petscii::PetsciiString: building a 16-byte
/// PETSCII string that strips shifted-space padding, with the crate's
/// embedded default character table, and converting it to a String maps the
/// bytes through that fixed table, so the result is a function of the bytes
/// alone.
#[verifier::external_body]
fn petscii_name_to_string(bytes: &Vec<u8>) -> (r: String)
    requires
        bytes@.len() == 16,
    ensures
        r@ == petscii_display_of(bytes@),
{
    let config = match <forbidden_bands::Config as forbidden_bands::Configuration>::load() {
        Ok(c) => c,
        Err(_) => {
            return String::new();
        },
    };
    let ps: forbidden_bands::petscii::PetsciiString<16> =
        forbidden_bands::petscii::PetsciiString::from_byte_slice_strip_shifted_space_with_config(
        bytes.as_slice(),
        &config.petscii,
    );
    String::from(ps)
}

/// The disk name: 16 bytes of PETSCII, padded with shifted spaces.
pub struct DiskName {
    /// The raw PETSCII name bytes.
    pub bytes: Vec<u8>,
}

impl DiskName {
    /// The name as a displayable string.
    pub fn display_string(&self) -> (r: String)
        requires
            self.bytes@.len() == 16,
        ensures
            r@ == petscii_display_of(self.bytes@),
    {
        petscii_name_to_string(&self.bytes)
    }
}

/// A Commodore DOS file name: 16 bytes of PETSCII, padded with shifted
/// spaces, which are not displayed.
pub struct FileName {
    /// The raw PETSCII name bytes.
    pub bytes: Vec<u8>,
}

impl FileName {
    /// The name as a displayable string.
    pub fn display_string(&self) -> (r: String)
        requires
            self.bytes@.len() == 16,
        ensures
            r@ == petscii_display_of(self.bytes@),
    {
        petscii_name_to_string(&self.bytes)
    }
}

/// A single Block Availability Map entry.
pub struct D64BAMEntry {
    /// Number of free sectors on the track.
    pub free_sectors_on_track: u8,
    /// The sector use bitmap, three bytes or 24 bits; a set bit means free.
    pub sector_use_bitmap: Vec<u8>,
}

/// A vector of booleans, one per sector of a track.
#[derive(Debug, PartialEq)]
pub struct BooleanVector(pub Vec<bool>);

/// The 21 sector-use bits of a BAM entry, least significant bit first
/// within each byte.
pub open spec fn spec_bam_bits(bitmap: Seq<u8>) -> Seq<bool> {
    Seq::new(
        21,
        |i: int|
            if i < 8 {
                (bitmap[0] >> (i as u8)) & 1 == 1
            } else if i < 16 {
                (bitmap[1] >> ((i - 8) as u8)) & 1 == 1
            } else {
                (bitmap[2] >> ((i - 16) as u8)) & 1 == 1
            },
    )
}

/// Unpack the sector-use bitmap of a BAM entry into booleans, least
/// significant bit first: eight bits of the first two bytes and five of the
/// third, 21 in all.
pub fn bam_entry_to_boolean_vector(bam: &D64BAMEntry) -> (r: BooleanVector)
    requires
        bam.sector_use_bitmap@.len() == 3,
    ensures
        r.0@ == spec_bam_bits(bam.sector_use_bitmap@),
{
    let mut bits: Vec<bool> = Vec::new();
    let b0 = bam.sector_use_bitmap[0];
    let b1 = bam.sector_use_bitmap[1];
    let b2 = bam.sector_use_bitmap[2];
    let mut i: u8 = 0;
    while i < 8
        invariant
            b0 == bam.sector_use_bitmap@[0],
            i <= 8,
            bits@.len() == i,
            forall|k: int| 0 <= k < i ==> bits@[k] == ((b0 >> (k as u8)) & 1 == 1),
        decreases 8 - i,
    {
        bits.push((b0 >> i) & 1 == 1);
        i = i + 1;
    }
    let mut i: u8 = 0;
    while i < 8
        invariant
            b0 == bam.sector_use_bitmap@[0],
            b1 == bam.sector_use_bitmap@[1],
            i <= 8,
            bits@.len() == 8 + i,
            forall|k: int| 0 <= k < 8 ==> bits@[k] == ((b0 >> (k as u8)) & 1 == 1),
            forall|k: int| 8 <= k < 8 + i ==> bits@[k] == ((b1 >> ((k - 8) as u8)) & 1 == 1),
        decreases 8 - i,
    {
        bits.push((b1 >> i) & 1 == 1);
        i = i + 1;
    }
    let mut i: u8 = 0;
    while i < 5
        invariant
            b0 == bam.sector_use_bitmap@[0],
            b1 == bam.sector_use_bitmap@[1],
            b2 == bam.sector_use_bitmap@[2],
            i <= 5,
            bits@.len() == 16 + i,
            forall|k: int| 0 <= k < 8 ==> bits@[k] == ((b0 >> (k as u8)) & 1 == 1),
            forall|k: int| 8 <= k < 16 ==> bits@[k] == ((b1 >> ((k - 8) as u8)) & 1 == 1),
            forall|k: int| 16 <= k < 16 + i ==> bits@[k] == ((b2 >> ((k - 16) as u8)) & 1 == 1),
        decreases 5 - i,
    {
        bits.push((b2 >> i) & 1 == 1);
        i = i + 1;
    }
    proof {
        assert(bits@ =~= spec_bam_bits(bam.sector_use_bitmap@));
    }
    BooleanVector(bits)
}

/// Relies on `String::from_iter` for characters: it collects the characters
/// in order.
#[verifier::external_body]
fn chars_to_string(chars: &Vec<char>) -> (r: String)
    ensures
        r@ == chars@,
{
    chars.iter().collect()
}

/// What a boolean bitmap renders as: one character per bit.
pub open spec fn spec_bitmap_chars(bits: Seq<bool>, used_char: char, unused_char: char) -> Seq<char> {
    bits.map_values(
        |b: bool|
            if b {
                used_char
            } else {
                unused_char
            },
    )
}

/// Render a boolean bitmap as a string, one character per bit.
pub fn bitmap_to_chars(bitmap: &BooleanVector, used_char: char, unused_char: char) -> (r: String)
    ensures
        r@ == spec_bitmap_chars(bitmap.0@, used_char, unused_char),
{
    let mut chars: Vec<char> = Vec::new();
    let mut i: usize = 0;
    while i < bitmap.0.len()
        invariant
            i <= bitmap.0@.len(),
            chars@.len() == i,
            forall|k: int|
                0 <= k < i ==> chars@[k] == if bitmap.0@[k] {
                    used_char
                } else {
                    unused_char
                },
        decreases bitmap.0@.len() - i,
    {
        if bitmap.0[i] {
            chars.push(used_char);
        } else {
            chars.push(unused_char);
        }
        i = i + 1;
    }
    let s = chars_to_string(&chars);
    proof {
        assert(s@ =~= spec_bitmap_chars(bitmap.0@, used_char, unused_char));
    }
    s
}

/// Parse an entry in the Block Availability Map table: a free-sector count
/// and three bytes of sector bitmap.
pub fn bam_entry_parser(data: &[u8], pos: usize) -> (r: Result<(D64BAMEntry, usize), Error>)
    ensures
        r is Ok <==> pos + 4 <= data@.len(),
        r matches Ok((e, new_pos)) ==> e.free_sectors_on_track == data@[pos as int]
            && e.sector_use_bitmap@ == data@.subrange(pos + 1, pos + 4) && new_pos == pos + 4,
        r matches Err(e) ==> e.kind matches ErrorKind::Message(_),
{
    let short = Err(Error::new(ErrorKind::new("Parsing requires more data")));
    let (free_sectors_on_track, p) = match read_u8(data, pos) {
        Some(v) => v,
        None => {
            return short;
        },
    };
    let (sector_use_bitmap, p) = match take_bytes(data, p, 3) {
        Some(v) => v,
        None => {
            return short;
        },
    };
    Ok((D64BAMEntry { free_sectors_on_track, sector_use_bitmap }, p))
}


/// The Block Availability Map, which lives at track 18, byte offset 0x16500
/// of the image.
pub struct D64BlockAvailabilityMap {
    /// The track of the first directory sector, always 0x12.
    pub first_directory_sector_track: u8,
    /// The sector of the first directory sector, always 0x01.
    pub first_directory_sector_sector: u8,
    /// The DOS version byte, always 0x41.
    pub disk_dos_version: u8,
    /// Reserved byte.
    pub reserved: u8,
    /// One BAM entry for each of the 35 tracks.
    pub bam_entries: Vec<D64BAMEntry>,
    /// The disk name, 16 bytes padded with shifted spaces.
    pub disk_name: DiskName,
    /// Two reserved bytes.
    pub second_reserved: Vec<u8>,
    /// The disk id.
    pub disk_id: u16,
    /// Reserved byte, usually a shifted space.
    pub third_reserved: u8,
    /// The DOS type, from its two-byte tag, usually `2A` for CBM DOS.
    pub dos_type: DOSType,
}

impl D64BlockAvailabilityMap {
    /// Whether the BAM passes the sanity check: the DOS version byte is
    /// 0x41.
    pub open spec fn spec_check(self) -> bool {
        self.disk_dos_version == 0x41
    }

    /// Sanity check: the disk DOS version byte must be 0x41.
    pub fn check(&self) -> (r: bool)
        ensures
            r == self.spec_check(),
    {
        self.disk_dos_version == 0x41
    }
}

/// Whether a D64 image is accepted: it holds the whole BAM block, the magic
/// bytes 0x12, 0x01, 0x41 stand at offset 0x16500, and the DOS type tag
/// `2A` stands at offset 0x165A5.
pub open spec fn spec_d64_bam_ok(data: Seq<u8>) -> bool {
    &&& data.len() >= 0x16600
    &&& data[0x16500] == 0x12
    &&& data[0x16501] == 0x01
    &&& data[0x16502] == 0x41
    &&& data[0x165A5] == 0x32
    &&& data[0x165A6] == 0x41
}

/// What a successfully parsed Block Availability Map holds.
pub open spec fn spec_d64_bam_result_ok(data: Seq<u8>, bam: D64BlockAvailabilityMap) -> bool {
    &&& bam.first_directory_sector_track == 0x12
    &&& bam.first_directory_sector_sector == 0x01
    &&& bam.disk_dos_version == 0x41
    &&& bam.reserved == data[0x16503]
    &&& bam.bam_entries@.len() == 35
    &&& forall|k: int|
        0 <= k < 35 ==> (#[trigger] bam.bam_entries@[k]).free_sectors_on_track == data[0x16504 + 4
            * k] && bam.bam_entries@[k].sector_use_bitmap@ == data.subrange(
            0x16504 + 4 * k + 1,
            0x16504 + 4 * k + 4,
        )
    &&& bam.disk_name.bytes@ == data.subrange(0x16590, 0x165A0)
    &&& bam.second_reserved@ == data.subrange(0x165A0, 0x165A2)
    &&& bam.disk_id == spec_le_u16(data[0x165A2], data[0x165A3])
    &&& bam.third_reserved == data[0x165A4]
    &&& bam.dos_type == DOSType::CBM
}

/// Parse the Block Availability Map of a D64 image.  The magic first
/// directory pointer, DOS version and DOS type tag are all verified; any
/// deviation is a parse error.
pub fn d64_block_availability_map_parser(data: &[u8]) -> (r: Result<
    (D64BlockAvailabilityMap, usize),
    Error,
>)
    ensures
        r is Ok <==> spec_d64_bam_ok(data@),
        r matches Ok((bam, new_pos)) ==> spec_d64_bam_result_ok(data@, bam) && new_pos == 0x16600,
{
    let short = Err(Error::new(ErrorKind::new("Parsing requires more data")));
    if data.len() < 0x16600 {
        return short;
    }
    // Jump to the BAM: 17 tracks of 21 blocks of 256 bytes come before it.
    let p: usize = 0x16500;

    // The magic first-directory pointer and DOS version.
    if data[p] != 0x12 {
        return Err(
            Error::new(
                ErrorKind::Invalid(InvalidErrorKind::Invalid("Invalid first directory track".to_owned())),
            ),
        );
    }
    if data[p + 1] != 0x01 {
        return Err(
            Error::new(
                ErrorKind::Invalid(InvalidErrorKind::Invalid("Invalid first directory sector".to_owned())),
            ),
        );
    }
    if data[p + 2] != 0x41 {
        return Err(
            Error::new(
                ErrorKind::Invalid(InvalidErrorKind::Invalid("Invalid disk DOS version".to_owned())),
            ),
        );
    }
    let first_directory_sector_track = data[p];
    let first_directory_sector_sector = data[p + 1];
    let disk_dos_version = data[p + 2];
    let reserved = data[p + 3];

    let mut bam_entries: Vec<D64BAMEntry> = Vec::new();
    let mut k: usize = 0;
    let mut q: usize = p + 4;
    while k < 35
        invariant
            data@.len() >= 0x16600,
            k <= 35,
            q == 0x16504 + 4 * k,
            bam_entries@.len() == k,
            forall|t: int|
                0 <= t < k ==> (#[trigger] bam_entries@[t]).free_sectors_on_track == data@[0x16504
                    + 4 * t] && bam_entries@[t].sector_use_bitmap@ == data@.subrange(
                    0x16504 + 4 * t + 1,
                    0x16504 + 4 * t + 4,
                ),
        decreases 35 - k,
    {
        let (entry, nq) = match bam_entry_parser(data, q) {
            Ok(v) => v,
            Err(_) => {
                return Err(Error::new(ErrorKind::new("Parsing requires more data")));
            },
        };
        bam_entries.push(entry);
        q = nq;
        k = k + 1;
    }

    let (disk_name_bytes, q) = match take_bytes(data, q, 16) {
        Some(v) => v,
        None => {
            return short;
        },
    };
    let (second_reserved, q) = match take_bytes(data, q, 2) {
        Some(v) => v,
        None => {
            return short;
        },
    };
    let (disk_id, q) = match read_le_u16(data, q) {
        Some(v) => v,
        None => {
            return short;
        },
    };
    let (third_reserved, q) = match read_u8(data, q) {
        Some(v) => v,
        None => {
            return short;
        },
    };
    // The DOS type tag: the two ASCII characters `2A`.
    if data[q] != 0x32 || data[q + 1] != 0x41 {
        return Err(
            Error::new(ErrorKind::Invalid(InvalidErrorKind::Invalid("Invalid DOS type".to_owned()))),
        );
    }
    let dos_type = DOSType::CBM;
    // Two shifted spaces, 84 null bytes, and three more reserved bytes end
    // the block.
    let q = q + 2 + 2 + 84 + 3;

    Ok(
        (
            D64BlockAvailabilityMap {
                first_directory_sector_track,
                first_directory_sector_sector,
                disk_dos_version,
                reserved,
                bam_entries,
                disk_name: DiskName { bytes: disk_name_bytes },
                second_reserved,
                disk_id,
                third_reserved,
                dos_type,
            },
            q,
        ),
    )
}

/// The upper bits of the file-type byte: the status of the file.
#[derive(Clone, Copy, Debug, PartialEq, Eq, Structural)]
pub enum FileStatus {
    /// The file is a normal file.
    Normal,
    /// The file is unclosed.
    Unclosed,
    /// The file is an @ replacement.
    AtReplacement,
    /// The file is locked.
    Locked,
    /// An invalid file status.
    Invalid,
}

/// The lower bits of the file-type byte: the type of the file.
#[derive(Clone, Copy, Debug, PartialEq, Eq, Structural)]
pub enum FileType {
    /// The file is scratched or deleted.
    Deleted,
    /// The file is a sequential file.
    Sequential,
    /// The file is a program.
    Program,
    /// The file is a user file.
    User,
    /// The file is a relative file.
    Relative,
    /// Special flag for invalid files.
    Invalid,
}

/// The file status the upper bits of a type byte stand for.
pub open spec fn spec_file_status_from(num: u8) -> FileStatus {
    let masked = num & 0xF0;
    if masked == 0x80 {
        FileStatus::Normal
    } else if masked == 0x00 {
        FileStatus::Unclosed
    } else if masked == 0xA0 {
        FileStatus::AtReplacement
    } else if masked == 0xC0 {
        FileStatus::Locked
    } else {
        FileStatus::Invalid
    }
}

/// The file type the lower bits of a type byte stand for.
pub open spec fn spec_file_type_from(num: u8) -> FileType {
    let masked = num & 0x0F;
    if masked == 0 {
        FileType::Deleted
    } else if masked == 1 {
        FileType::Sequential
    } else if masked == 2 {
        FileType::Program
    } else if masked == 3 {
        FileType::User
    } else if masked == 4 {
        FileType::Relative
    } else {
        FileType::Invalid
    }
}

impl FileStatus {
    /// The file status the upper bits of a type byte stand for.
    pub fn from(num: u8) -> (r: FileStatus)
        ensures
            r == spec_file_status_from(num),
    {
        match num & 0xF0 {
            0x80 => FileStatus::Normal,
            0x00 => FileStatus::Unclosed,
            0xA0 => FileStatus::AtReplacement,
            0xC0 => FileStatus::Locked,
            _ => FileStatus::Invalid,
        }
    }
}

impl FileType {
    /// The file type the lower bits of a type byte stand for.
    pub fn from(num: u8) -> (r: FileType)
        ensures
            r == spec_file_type_from(num),
    {
        match num & 0x0F {
            0 => FileType::Deleted,
            1 => FileType::Sequential,
            2 => FileType::Program,
            3 => FileType::User,
            4 => FileType::Relative,
            _ => FileType::Invalid,
        }
    }

    /// What the short tag of this file type says.
    pub open spec fn spec_tag(self) -> Seq<char> {
        match self {
            FileType::Deleted => ""@,
            FileType::Sequential => "SEQ"@,
            FileType::Program => "PRG"@,
            FileType::User => "USR"@,
            FileType::Relative => "REL"@,
            FileType::Invalid => "INV"@,
        }
    }

    /// The short tag of this file type, as on a directory listing.
    pub fn tag(&self) -> (r: &'static str)
        ensures
            r@ == self.spec_tag(),
    {
        match self {
            FileType::Deleted => "",
            FileType::Sequential => "SEQ",
            FileType::Program => "PRG",
            FileType::User => "USR",
            FileType::Relative => "REL",
            FileType::Invalid => "INV",
        }
    }
}

/// The full file-type byte of a directory entry: the file status in its
/// upper bits and the file type in its lower bits.
#[derive(Clone, Copy, Debug, PartialEq, Eq, Structural)]
pub struct ExtendedFileType {
    /// The status of the file.
    pub file_status: FileStatus,
    /// The type of the file.
    pub file_type: FileType,
}

/// What an extended file type displays as, following Commodore DOS listing
/// conventions: a leading `*` for an unclosed file, a trailing ` <` for a
/// locked one, and nothing at all for a few impossible combinations.
pub open spec fn spec_extended_display(e: ExtendedFileType) -> Seq<char> {
    let t = e.file_type.spec_tag();
    let shown = match e.file_status {
        FileStatus::Normal => t,
        FileStatus::Unclosed => "*"@ + t,
        FileStatus::AtReplacement => t,
        FileStatus::Locked => t + " <"@,
        FileStatus::Invalid => ""@,
    };
    if (e.file_type == FileType::Relative && (e.file_status == FileStatus::Unclosed
        || e.file_status == FileStatus::AtReplacement)) || (e.file_type == FileType::Deleted
        && e.file_status == FileStatus::Unclosed) {
        ""@
    } else {
        shown
    }
}

impl ExtendedFileType {
    /// Render this file type as it appears on a Commodore DOS listing.
    pub fn display_string(&self) -> (r: String)
        ensures
            r@ == spec_extended_display(*self),
    {
        let t = self.file_type.tag();
        let tmp_show: String = match self.file_status {
            FileStatus::Normal => t.to_owned(),
            FileStatus::Unclosed => {
                let mut s = "*".to_owned();
                s.append(t);
                s
            },
            FileStatus::AtReplacement => t.to_owned(),
            FileStatus::Locked => {
                let mut s = t.to_owned();
                s.append(" <");
                s
            },
            FileStatus::Invalid => "".to_owned(),
        };
        if (matches!(self.file_type, FileType::Relative) && (matches!(
            self.file_status,
            FileStatus::Unclosed,
        ) || matches!(self.file_status, FileStatus::AtReplacement))) || (matches!(
            self.file_type,
            FileType::Deleted,
        ) && matches!(self.file_status, FileStatus::Unclosed)) {
            "".to_owned()
        } else {
            tmp_show
        }
    }
}

/// A directory entry of a D64 disk, 30 bytes on disk.
pub struct FileEntry {
    /// The full file-type byte, split into status and type.
    pub file_type: ExtendedFileType,
    /// The track of the first data block.
    pub track_of_first_data_block: u8,
    /// The sector of the first data block.
    pub sector_of_first_data_block: u8,
    /// The 16-byte file name, padded with shifted spaces.
    pub file_name: FileName,
    /// The track of the first set of side sector blocks, for relative files.
    pub track_of_first_side_sector_block: u8,
    /// The sector of the first set of side sector blocks.
    pub sector_of_first_side_sector_block: u8,
    /// The record size a relative file entry was created with.
    pub record_size: u8,
    /// Four unused bytes.
    pub unused: Vec<u8>,
    /// Track of the start of the replacement file during save-and-replace.
    pub track_of_replacement_file: u8,
    /// Sector of the start of the replacement file.
    pub sector_of_replacement_file: u8,
    /// The number of blocks in the file, stored low byte first.
    pub number_of_blocks_in_file: u16,
}

/// Parse a D64 file entry, 30 bytes.  The name bytes are kept raw; shifted
/// space padding is stripped when the name is displayed.
pub fn d64_file_entry_parser(data: &[u8], pos: usize) -> (r: Result<(FileEntry, usize), Error>)
    ensures
        r is Ok <==> pos + 30 <= data@.len(),
        r matches Ok((e, new_pos)) ==> {
            &&& e.file_type == (ExtendedFileType {
                file_status: spec_file_status_from(data@[pos as int]),
                file_type: spec_file_type_from(data@[pos as int]),
            })
            &&& e.track_of_first_data_block == data@[pos + 1]
            &&& e.sector_of_first_data_block == data@[pos + 2]
            &&& e.file_name.bytes@ == data@.subrange(pos + 3, pos + 19)
            &&& e.track_of_first_side_sector_block == data@[pos + 19]
            &&& e.sector_of_first_side_sector_block == data@[pos + 20]
            &&& e.record_size == data@[pos + 21]
            &&& e.unused@ == data@.subrange(pos + 22, pos + 26)
            &&& e.track_of_replacement_file == data@[pos + 26]
            &&& e.sector_of_replacement_file == data@[pos + 27]
            &&& e.number_of_blocks_in_file == spec_le_u16(data@[pos + 28], data@[pos + 29])
            &&& new_pos == pos + 30
        },
        r matches Err(e) ==> e.kind matches ErrorKind::Message(_),
{
    let short = Err(Error::new(ErrorKind::new("Parsing requires more data")));
    let (ft, p) = match read_u8(data, pos) {
        Some(v) => v,
        None => {
            return short;
        },
    };
    let file_type = ExtendedFileType {
        file_status: FileStatus::from(ft),
        file_type: FileType::from(ft),
    };
    let (track_of_first_data_block, p) = match read_u8(data, p) {
        Some(v) => v,
        None => {
            return short;
        },
    };
    let (sector_of_first_data_block, p) = match read_u8(data, p) {
        Some(v) => v,
        None => {
            return short;
        },
    };
    let (file_name, p) = match take_bytes(data, p, 16) {
        Some(v) => v,
        None => {
            return short;
        },
    };
    let (track_of_first_side_sector_block, p) = match read_u8(data, p) {
        Some(v) => v,
        None => {
            return short;
        },
    };
    let (sector_of_first_side_sector_block, p) = match read_u8(data, p) {
        Some(v) => v,
        None => {
            return short;
        },
    };
    let (record_size, p) = match read_u8(data, p) {
        Some(v) => v,
        None => {
            return short;
        },
    };
    let (unused, p) = match take_bytes(data, p, 4) {
        Some(v) => v,
        None => {
            return short;
        },
    };
    let (track_of_replacement_file, p) = match read_u8(data, p) {
        Some(v) => v,
        None => {
            return short;
        },
    };
    let (sector_of_replacement_file, p) = match read_u8(data, p) {
        Some(v) => v,
        None => {
            return short;
        },
    };
    let (number_of_blocks_in_file, p) = match read_le_u16(data, p) {
        Some(v) => v,
        None => {
            return short;
        },
    };

    Ok(
        (
            FileEntry {
                file_type,
                track_of_first_data_block,
                sector_of_first_data_block,
                file_name: FileName { bytes: file_name },
                track_of_first_side_sector_block,
                sector_of_first_side_sector_block,
                record_size,
                unused,
                track_of_replacement_file,
                sector_of_replacement_file,
                number_of_blocks_in_file,
            },
            p,
        ),
    )
}

/// A directory block of a D64 disk: the next-block pointer and eight file
/// entries.
pub struct D64DirectoryEntry {
    /// The track of the next directory block; tracks are one-based.
    pub track_of_next_directory_block: Option<u16>,
    /// The sector of the next directory block; sectors are zero-based.
    pub sector_of_next_directory_block: Option<u16>,
    /// Eight file entries.
    pub file_entries: Vec<FileEntry>,
}

/// What a successfully parsed directory block holds.
pub open spec fn spec_d64_directory_result_ok(data: Seq<u8>, pos: int, d: D64DirectoryEntry) -> bool {
    &&& d.track_of_next_directory_block == Some(data[pos] as u16)
    &&& d.sector_of_next_directory_block == Some(data[pos + 1] as u16)
    &&& d.file_entries@.len() == 8
    &&& forall|k: int|
        0 <= k < 8 ==> (#[trigger] d.file_entries@[k]).file_name.bytes@ == data.subrange(
            pos + 2 + 30 * k + 3,
            pos + 2 + 30 * k + 19,
        ) && d.file_entries@[k].file_type == (ExtendedFileType {
            file_status: spec_file_status_from(data[pos + 2 + 30 * k]),
            file_type: spec_file_type_from(data[pos + 2 + 30 * k]),
        }) && d.file_entries@[k].track_of_first_data_block == data[pos + 2 + 30 * k + 1]
            && d.file_entries@[k].sector_of_first_data_block == data[pos + 2 + 30 * k + 2]
            && d.file_entries@[k].number_of_blocks_in_file == spec_le_u16(
            data[pos + 2 + 30 * k + 28],
            data[pos + 2 + 30 * k + 29],
        )
}

/// Parse a directory block: a next-block pointer followed by eight file
/// entries of 30 bytes each.
pub fn d64_directory_parser(data: &[u8], pos: usize) -> (r: Result<(D64DirectoryEntry, usize), Error>)
    ensures
        r is Ok <==> pos + 242 <= data@.len(),
        r matches Ok((d, new_pos)) ==> spec_d64_directory_result_ok(data@, pos as int, d)
            && new_pos == pos + 242,
        r matches Err(e) ==> e.kind matches ErrorKind::Message(_),
{
    let short = Err(Error::new(ErrorKind::new("Parsing requires more data")));
    let (track_byte, p) = match read_u8(data, pos) {
        Some(v) => v,
        None => {
            return short;
        },
    };
    let (sector_byte, p) = match read_u8(data, p) {
        Some(v) => v,
        None => {
            return short;
        },
    };
    let mut file_entries: Vec<FileEntry> = Vec::new();
    let mut k: usize = 0;
    let mut p: usize = p;
    while k < 8
        invariant
            k <= 8,
            p == pos + 2 + 30 * k,
            k > 0 ==> pos + 2 + 30 * k <= data@.len(),
            file_entries@.len() == k,
            forall|t: int|
                0 <= t < k ==> (#[trigger] file_entries@[t]).file_name.bytes@ == data@.subrange(
                    pos + 2 + 30 * t + 3,
                    pos + 2 + 30 * t + 19,
                ) && file_entries@[t].file_type == (ExtendedFileType {
                    file_status: spec_file_status_from(data@[pos + 2 + 30 * t]),
                    file_type: spec_file_type_from(data@[pos + 2 + 30 * t]),
                }) && file_entries@[t].track_of_first_data_block == data@[pos + 2 + 30 * t + 1]
                    && file_entries@[t].sector_of_first_data_block == data@[pos + 2 + 30 * t + 2]
                    && file_entries@[t].number_of_blocks_in_file == spec_le_u16(
                    data@[pos + 2 + 30 * t + 28],
                    data@[pos + 2 + 30 * t + 29],
                ),
        decreases 8 - k,
    {
        let (entry, np) = match d64_file_entry_parser(data, p) {
            Ok(v) => v,
            Err(_) => {
                return Err(Error::new(ErrorKind::new("Parsing requires more data")));
            },
        };
        file_entries.push(entry);
        p = np;
        k = k + 1;
    }
    Ok(
        (
            D64DirectoryEntry {
                track_of_next_directory_block: Some(track_byte as u16),
                sector_of_next_directory_block: Some(sector_byte as u16),
                file_entries,
            },
            p,
        ),
    )
}

/// A Commodore D64 disk: its Block Availability Map and its directory.
pub struct D64Disk {
    /// The D64 Block Availability Map.
    pub bam: D64BlockAvailabilityMap,
    /// The first directory block of the disk.
    pub directory: D64DirectoryEntry,
}

/// What a successfully parsed D64 disk holds: its Block Availability Map
/// and the directory block right after it.
pub open spec fn spec_d64_disk_result_ok(data: Seq<u8>, d: D64Disk) -> bool {
    &&& spec_d64_bam_result_ok(data, d.bam)
    &&& spec_d64_directory_result_ok(data, 0x16600, d.directory)
}

/// Parse a D64 disk image: the Block Availability Map at track 18, then the
/// directory block that follows it.
pub fn d64_disk_parser(data: &[u8]) -> (r: Result<(D64Disk, usize), Error>)
    ensures
        r is Ok <==> spec_d64_bam_ok(data@) && data@.len() >= 0x16600 + 242,
        r matches Ok((d, new_pos)) ==> spec_d64_disk_result_ok(data@, d) && new_pos == 0x16600
            + 242,
{
    let (bam, p) = match d64_block_availability_map_parser(data) {
        Ok(v) => v,
        Err(e) => {
            return Err(e);
        },
    };
    let (directory, p) = match d64_directory_parser(data, p) {
        Ok(v) => v,
        Err(e) => {
            return Err(e);
        },
    };
    Ok((D64Disk { bam, directory }, p))
}

/// What a D64 catalog listing says for a run of directory entries: each
/// entry's displayed name followed by its file-type display, one line each.
pub open spec fn spec_d64_catalog_lines(entries: Seq<FileEntry>) -> Seq<char>
    decreases entries.len(),
{
    if entries.len() == 0 {
        Seq::empty()
    } else {
        spec_d64_catalog_lines(entries.drop_last()) + petscii_display_of(
            entries.last().file_name.bytes@,
        ) + spec_extended_display(entries.last().file_type) + "\n"@
    }
}

impl D64Disk {
    /// List the contents of the disk: the disk name, then one line per
    /// directory entry with its name and file type.
    pub fn catalog(&self) -> (r: String)
        requires
            self.bam.disk_name.bytes@.len() == 16,
            forall|k: int|
                0 <= k < self.directory.file_entries@.len() ==> (
                #[trigger] self.directory.file_entries@[k]).file_name.bytes@.len() == 16,
        ensures
            r@ == petscii_display_of(self.bam.disk_name.bytes@) + "\n"@ + spec_d64_catalog_lines(
                self.directory.file_entries@,
            ),
    {
        let mut result = self.bam.disk_name.display_string();
        result.append("\n");
        let mut k: usize = 0;
        while k < self.directory.file_entries.len()
            invariant
                forall|t: int|
                    0 <= t < self.directory.file_entries@.len() ==> (
                    #[trigger] self.directory.file_entries@[t]).file_name.bytes@.len() == 16,
                k <= self.directory.file_entries@.len(),
                result@ == petscii_display_of(self.bam.disk_name.bytes@) + "\n"@
                    + spec_d64_catalog_lines(self.directory.file_entries@.take(k as int)),
            decreases self.directory.file_entries@.len() - k,
        {
            let entry = &self.directory.file_entries[k];
            let name = entry.file_name.display_string();
            result.append(name.as_str());
            let td = entry.file_type.display_string();
            result.append(td.as_str());
            result.append("\n");
            proof {
                assert(self.directory.file_entries@.take(k + 1).drop_last()
                    =~= self.directory.file_entries@.take(k as int));
                assert(self.directory.file_entries@.take(k + 1).last()
                    == self.directory.file_entries@[k as int]);
            }
            k = k + 1;
        }
        proof {
            assert(self.directory.file_entries@.take(self.directory.file_entries@.len() as int)
                =~= self.directory.file_entries@);
        }
        result
    }

    /// Saving D64 disk images is not implemented.
    pub fn save_disk_image_payload(&self) -> (r: Result<Vec<u8>, Error>)
        ensures
            r matches Err(e) && e.kind matches ErrorKind::Unimplemented(m) && m@
                == "Saving D64 disk images not implemented\n"@,
    {
        Err(
            Error::new(
                ErrorKind::Unimplemented("Saving D64 disk images not implemented\n".to_owned()),
            ),
        )
    }
}

/// Law: every D64 image the parser accepts carries the bytes 0x12, 0x01,
/// 0x41 at offset 0x16500 and the DOS type tag `2A` at offset 0x165A5.
pub proof fn lemma_accepted_d64_magic(data: Seq<u8>)
    requires
        spec_d64_bam_ok(data),
    ensures
        data[0x16500] == 0x12,
        data[0x16501] == 0x01,
        data[0x16502] == 0x41,
        data[0x165A5] == 0x32,
        data[0x165A6] == 0x41,
{
}

} // verus!
