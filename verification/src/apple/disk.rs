//! Disk-level functions and data structures for Apple disks.
use vstd::prelude::*;

verus! {

use crate::apple::catalog::{
    build_files,
    parse_catalogs,
    spec_build_files_possible,
    spec_built_files_ok,
    spec_catalogs_entries,
    spec_catalogs_wf,
    spec_tracks,
    FileEntry,
    Files,
    FullCatalog,
};
use crate::apple::nibble::{parse_nib_disk, recognize_prologue, spec_find_prologue, NibbleDisk};
use crate::bytes::{read_u8, spec_le_u16, read_le_u16, take_bytes};
use crate::error::{Error, ErrorKind, InvalidErrorKind};
use vstd::string::StringSliceAdditionalSpecFns;

/// The different types of encoding wrappers for Apple disks.
#[derive(Clone, Copy, Debug, PartialEq, Eq, Structural)]
pub enum Encoding {
    /// No special encoding: a raw disk image.
    Plain,
    /// Nibble encoding.
    Nibble,
}

/// The different formats of Apple disks, each carrying the file size.
#[derive(Clone, Copy, Debug, PartialEq, Eq, Structural)]
pub enum Format {
    /// Unknown disk format.
    Unknown(u64),
    /// Apple DOS 3.2.
    DOS32(u64),
    /// Apple DOS 3.3.
    DOS33(u64),
    /// Apple ProDOS.
    ProDOS(u64),
}

/// The Volume Table of Contents of an Apple DOS 3.3 disk.
pub struct VolumeTableOfContents {
    /// Reserved byte.
    pub reserved: u8,
    /// Track number of the first catalog sector.
    pub track_number_of_first_catalog_sector: u8,
    /// Sector number of the first catalog sector.
    pub sector_number_of_first_catalog_sector: u8,
    /// Release number of the DOS used to initialize the disk.
    pub release_number_of_dos: u8,
    /// Two reserved bytes.
    pub reserved2: Vec<u8>,
    /// Diskette volume number.
    pub diskette_volume_number: u8,
    /// Thirty-two reserved bytes.
    pub reserved3: Vec<u8>,
    /// Maximum number of track/sector pairs that fit in one track/sector
    /// list sector: 122 for 256-byte sectors.
    pub maximum_number_of_track_sector_pairs: u8,
    /// Eight reserved bytes.
    pub reserved4: Vec<u8>,
    /// Last track where sectors were allocated.
    pub last_track_where_sectors_were_allocated: u8,
    /// Direction of track allocation, +1 or -1.
    pub direction_of_track_allocation: i8,
    /// Two reserved bytes.
    pub reserved5: Vec<u8>,
    /// Number of tracks per diskette, normally 35.
    pub number_of_tracks_per_diskette: u8,
    /// Number of sectors per track, 13 or 16.
    pub number_of_sectors_per_track: u8,
    /// Number of bytes per sector, stored little-endian.
    pub number_of_bytes_per_sector: u16,
    /// The bit map of free sectors, four bytes per track.
    pub bit_map_of_free_sectors: Vec<Vec<u8>>,
}

/// The mathematical model of a Volume Table of Contents.
#[verifier::ext_equal]
pub struct SpecVolumeTableOfContents {
    /// Reserved byte.
    pub reserved: u8,
    /// Track number of the first catalog sector.
    pub track_number_of_first_catalog_sector: u8,
    /// Sector number of the first catalog sector.
    pub sector_number_of_first_catalog_sector: u8,
    /// Release number of the DOS used to initialize the disk.
    pub release_number_of_dos: u8,
    /// Two reserved bytes.
    pub reserved2: Seq<u8>,
    /// Diskette volume number.
    pub diskette_volume_number: u8,
    /// Thirty-two reserved bytes.
    pub reserved3: Seq<u8>,
    /// Maximum number of track/sector pairs in one list sector.
    pub maximum_number_of_track_sector_pairs: u8,
    /// Eight reserved bytes.
    pub reserved4: Seq<u8>,
    /// Last track where sectors were allocated.
    pub last_track_where_sectors_were_allocated: u8,
    /// Direction of track allocation.
    pub direction_of_track_allocation: i8,
    /// Two reserved bytes.
    pub reserved5: Seq<u8>,
    /// Number of tracks per diskette.
    pub number_of_tracks_per_diskette: u8,
    /// Number of sectors per track.
    pub number_of_sectors_per_track: u8,
    /// Number of bytes per sector.
    pub number_of_bytes_per_sector: u16,
    /// The bit map of free sectors, four bytes per track.
    pub bit_map_of_free_sectors: Seq<Seq<u8>>,
}

impl View for VolumeTableOfContents {
    type V = SpecVolumeTableOfContents;

    open spec fn view(&self) -> SpecVolumeTableOfContents {
        SpecVolumeTableOfContents {
            reserved: self.reserved,
            track_number_of_first_catalog_sector: self.track_number_of_first_catalog_sector,
            sector_number_of_first_catalog_sector: self.sector_number_of_first_catalog_sector,
            release_number_of_dos: self.release_number_of_dos,
            reserved2: self.reserved2@,
            diskette_volume_number: self.diskette_volume_number,
            reserved3: self.reserved3@,
            maximum_number_of_track_sector_pairs: self.maximum_number_of_track_sector_pairs,
            reserved4: self.reserved4@,
            last_track_where_sectors_were_allocated: self.last_track_where_sectors_were_allocated,
            direction_of_track_allocation: self.direction_of_track_allocation,
            reserved5: self.reserved5@,
            number_of_tracks_per_diskette: self.number_of_tracks_per_diskette,
            number_of_sectors_per_track: self.number_of_sectors_per_track,
            number_of_bytes_per_sector: self.number_of_bytes_per_sector,
            bit_map_of_free_sectors: self.bit_map_of_free_sectors@.map_values(|v: Vec<u8>| v@),
        }
    }
}

/// How many free-sector bit maps a Volume Table of Contents holds: one per
/// track, at most 50.
pub open spec fn spec_vtoc_bitmap_count(data: Seq<u8>, pos: int) -> int {
    if data[pos + 52] < 50 {
        data[pos + 52] as int
    } else {
        50
    }
}

/// The Volume Table of Contents encoded at byte offset `pos`.
pub open spec fn spec_vtoc_at(data: Seq<u8>, pos: int) -> SpecVolumeTableOfContents {
    SpecVolumeTableOfContents {
        reserved: data[pos],
        track_number_of_first_catalog_sector: data[pos + 1],
        sector_number_of_first_catalog_sector: data[pos + 2],
        release_number_of_dos: data[pos + 3],
        reserved2: data.subrange(pos + 4, pos + 6),
        diskette_volume_number: data[pos + 6],
        reserved3: data.subrange(pos + 7, pos + 39),
        maximum_number_of_track_sector_pairs: data[pos + 39],
        reserved4: data.subrange(pos + 40, pos + 48),
        last_track_where_sectors_were_allocated: data[pos + 48],
        direction_of_track_allocation: data[pos + 49] as i8,
        reserved5: data.subrange(pos + 50, pos + 52),
        number_of_tracks_per_diskette: data[pos + 52],
        number_of_sectors_per_track: data[pos + 53],
        number_of_bytes_per_sector: spec_le_u16(data[pos + 54], data[pos + 55]),
        bit_map_of_free_sectors: Seq::new(
            spec_vtoc_bitmap_count(data, pos) as nat,
            |k: int| data.subrange(pos + 56 + 4 * k, pos + 56 + 4 * k + 4),
        ),
    }
}

/// Parse a Volume Table of Contents.  The free-sector bit maps are read for
/// as many tracks as the VTOC names, at most 50.
pub fn parse_volume_table_of_contents(data: &[u8], pos: usize) -> (r: Result<
    (VolumeTableOfContents, usize),
    Error,
>)
    ensures
        r is Ok <==> pos + 56 + 4 * spec_vtoc_bitmap_count(data@, pos as int) <= data@.len(),
        r matches Ok((v, new_pos)) ==> v@ == spec_vtoc_at(data@, pos as int) && new_pos == pos + 56
            + 4 * spec_vtoc_bitmap_count(data@, pos as int),
        r matches Err(e) ==> e.kind matches ErrorKind::Message(_),
{
    let short = Err(Error::new(ErrorKind::new("Parsing requires more data")));
    let (reserved, p) = match read_u8(data, pos) {
        Some(v) => v,
        None => {
            return short;
        },
    };
    let (track_number_of_first_catalog_sector, p) = match read_u8(data, p) {
        Some(v) => v,
        None => {
            return short;
        },
    };
    let (sector_number_of_first_catalog_sector, p) = match read_u8(data, p) {
        Some(v) => v,
        None => {
            return short;
        },
    };
    let (release_number_of_dos, p) = match read_u8(data, p) {
        Some(v) => v,
        None => {
            return short;
        },
    };
    let (reserved2, p) = match take_bytes(data, p, 2) {
        Some(v) => v,
        None => {
            return short;
        },
    };
    let (diskette_volume_number, p) = match read_u8(data, p) {
        Some(v) => v,
        None => {
            return short;
        },
    };
    let (reserved3, p) = match take_bytes(data, p, 32) {
        Some(v) => v,
        None => {
            return short;
        },
    };
    let (maximum_number_of_track_sector_pairs, p) = match read_u8(data, p) {
        Some(v) => v,
        None => {
            return short;
        },
    };
    let (reserved4, p) = match take_bytes(data, p, 8) {
        Some(v) => v,
        None => {
            return short;
        },
    };
    let (last_track_where_sectors_were_allocated, p) = match read_u8(data, p) {
        Some(v) => v,
        None => {
            return short;
        },
    };
    let (direction_byte, p) = match read_u8(data, p) {
        Some(v) => v,
        None => {
            return short;
        },
    };
    let (reserved5, p) = match take_bytes(data, p, 2) {
        Some(v) => v,
        None => {
            return short;
        },
    };
    let (number_of_tracks_per_diskette, p) = match read_u8(data, p) {
        Some(v) => v,
        None => {
            return short;
        },
    };
    let (number_of_sectors_per_track, p) = match read_u8(data, p) {
        Some(v) => v,
        None => {
            return short;
        },
    };
    let (number_of_bytes_per_sector, p) = match read_le_u16(data, p) {
        Some(v) => v,
        None => {
            return short;
        },
    };

    // Read one bit map per track the VTOC names, limited to 50, which stays
    // within the 256-byte sector.
    let bit_maps_to_read: usize = if number_of_tracks_per_diskette < 50 {
        number_of_tracks_per_diskette as usize
    } else {
        50
    };
    let mut bit_map_of_free_sectors: Vec<Vec<u8>> = Vec::new();
    let mut k: usize = 0;
    let mut p: usize = p;
    while k < bit_maps_to_read
        invariant
            bit_maps_to_read == spec_vtoc_bitmap_count(data@, pos as int),
            k <= bit_maps_to_read,
            p == pos + 56 + 4 * k,
            pos + 56 + 4 * k <= data@.len(),
            bit_map_of_free_sectors@.len() == k,
            forall|t: int|
                0 <= t < k ==> (#[trigger] bit_map_of_free_sectors@[t])@ == data@.subrange(
                    pos + 56 + 4 * t,
                    pos + 56 + 4 * t + 4,
                ),
        decreases bit_maps_to_read - k,
    {
        let (bm, np) = match take_bytes(data, p, 4) {
            Some(v) => v,
            None => {
                return Err(Error::new(ErrorKind::new("Parsing requires more data")));
            },
        };
        bit_map_of_free_sectors.push(bm);
        p = np;
        k = k + 1;
    }

    let vtoc = VolumeTableOfContents {
        reserved,
        track_number_of_first_catalog_sector,
        sector_number_of_first_catalog_sector,
        release_number_of_dos,
        reserved2,
        diskette_volume_number,
        reserved3,
        maximum_number_of_track_sector_pairs,
        reserved4,
        last_track_where_sectors_were_allocated,
        direction_of_track_allocation: direction_byte as i8,
        reserved5,
        number_of_tracks_per_diskette,
        number_of_sectors_per_track,
        bit_map_of_free_sectors,
        number_of_bytes_per_sector,
    };
    proof {
        assert(vtoc@.bit_map_of_free_sectors =~= spec_vtoc_at(
            data@,
            pos as int,
        ).bit_map_of_free_sectors);
        assert(vtoc@ == spec_vtoc_at(data@, pos as int));
    }
    Ok((vtoc, p))
}

impl SpecVolumeTableOfContents {
    /// Whether the geometry is sane: 35 or 40 tracks per diskette, and 13 or
    /// 16 sectors per track.
    pub open spec fn spec_check(self) -> bool {
        &&& (self.number_of_tracks_per_diskette == 35 || self.number_of_tracks_per_diskette == 40)
        &&& (self.number_of_sectors_per_track == 13 || self.number_of_sectors_per_track == 16)
    }
}

impl VolumeTableOfContents {
    /// Sanity check of the disk geometry: every parsed Apple DOS 3.3 disk
    /// has 35 or 40 tracks per diskette and 13 or 16 sectors per track.
    pub fn check(&self) -> (r: bool)
        ensures
            r == self@.spec_check(),
    {
        if (self.number_of_tracks_per_diskette != 35) && (self.number_of_tracks_per_diskette != 40) {
            return false;
        }
        if (self.number_of_sectors_per_track != 13) && (self.number_of_sectors_per_track != 16) {
            return false;
        }
        true
    }
}

/// An Apple ][ DOS disk.
pub struct AppleDOSDisk {
    /// The Volume Table of Contents.
    pub volume_table_of_contents: VolumeTableOfContents,
    /// The disk catalog.
    pub catalog: FullCatalog,
    /// Disk tracks: a vector of tracks, each a vector of 256-byte sectors.
    pub tracks: Vec<Vec<Vec<u8>>>,
    /// The files with their data.
    pub files: Files,
}

/// The parsed data of an Apple disk.
pub enum AppleDiskData {
    /// An Apple ][ DOS disk.
    DOS(AppleDOSDisk),
    /// An Apple ][ ProDOS disk.
    ProDOS,
    /// A nibble encoded disk.
    Nibble(NibbleDisk),
}

/// An Apple ][ disk.
pub struct AppleDisk {
    /// The disk encoding.
    pub encoding: Encoding,
    /// The disk format.
    pub format: Format,
    /// The parsed disk data.
    pub data: AppleDiskData,
}

/// Heuristic guesses for what kind of Apple disk an image is.
#[derive(Debug, PartialEq, Eq)]
pub struct AppleDiskGuess {
    /// The disk encoding.
    pub encoding: Encoding,
    /// The disk format.
    pub format: Format,
    /// The raw image data.
    pub data: Vec<u8>,
}

impl AppleDiskGuess {
    /// Return a new AppleDiskGuess holding the given raw image data.
    pub fn new(encoding: Encoding, format: Format, data: Vec<u8>) -> (g: AppleDiskGuess)
        ensures
            g.encoding == encoding && g.format == format && g.data@ == data@,
    {
        AppleDiskGuess { encoding, format, data }
    }
}

/// A byte with an ASCII upper-case letter folded to lower case.
pub open spec fn spec_lower(b: u8) -> u8 {
    if 0x41 <= b <= 0x5A {
        (b + 0x20) as u8
    } else {
        b
    }
}

/// The extension of a file name: the bytes after the last dot, or the whole
/// name when it has no dot.
pub open spec fn spec_ext_of(b: Seq<u8>) -> Seq<u8>
    decreases b.len(),
{
    if b.len() == 0 {
        b
    } else if b.last() == 0x2E {
        Seq::empty()
    } else {
        spec_ext_of(b.drop_last()).push(b.last())
    }
}

/// The lower-cased extension of a file name.
pub open spec fn spec_ext_lower(b: Seq<u8>) -> Seq<u8> {
    spec_ext_of(b).map_values(|c: u8| spec_lower(c))
}

/// Fold an ASCII upper-case letter to lower case.
fn lower_byte(b: u8) -> (r: u8)
    ensures
        r == spec_lower(b),
{
    if 0x41 <= b && b <= 0x5A {
        b + 0x20
    } else {
        b
    }
}

/// The extension of a filename, lower-cased.
pub fn filename_ext_lower(filename: &str) -> (r: Vec<u8>)
    ensures
        r@ == spec_ext_lower(filename.spec_bytes()),
{
    let bytes = filename.as_bytes();
    let ghost bv = filename.spec_bytes();
    // Find where the extension starts: just after the last dot, or at the
    // start of the name when it has no dot.
    let mut start: usize = bytes.len();
    while start > 0 && bytes[start - 1] != 0x2E
        invariant
            bv == bytes@,
            start <= bytes@.len(),
            forall|k: int| start <= k < bytes@.len() ==> bytes@[k] != 0x2E,
        decreases start,
    {
        start = start - 1;
    }
    proof {
        lemma_ext_of_suffix(bv, start as int);
    }
    let mut ext: Vec<u8> = Vec::new();
    let mut i: usize = start;
    while i < bytes.len()
        invariant
            bv == bytes@,
            start <= i <= bytes@.len(),
            ext@.len() == i - start,
            forall|k: int| 0 <= k < ext@.len() ==> ext@[k] == spec_lower(bv[start + k]),
        decreases bytes@.len() - i,
    {
        ext.push(lower_byte(bytes[i]));
        i = i + 1;
    }
    proof {
        assert(ext@ =~= spec_ext_lower(bv));
    }
    ext
}

/// The extension of a name is its suffix after the last dot.
proof fn lemma_ext_of_suffix(b: Seq<u8>, start: int)
    requires
        0 <= start <= b.len(),
        start == 0 || b[start - 1] == 0x2E,
        forall|k: int| start <= k < b.len() ==> b[k] != 0x2E,
    ensures
        spec_ext_of(b) == b.skip(start),
    decreases b.len() - start,
{
    if b.len() == start {
        if start == 0 {
            assert(b.skip(0) =~= b);
        } else {
            assert(b.last() == 0x2E);
            assert(b.skip(start) =~= Seq::<u8>::empty());
        }
    } else {
        assert(b.last() != 0x2E);
        lemma_ext_of_suffix(b.drop_last(), start);
        assert(b.drop_last().skip(start).push(b.last()) =~= b.skip(start));
    }
}

/// What guessing a format from a filename and its data yields: `do` and
/// `dsk` name a plain DOS 3.3 image; `nib` names a nibble image whose exact
/// format is taken from the first prologue found in the data; anything else
/// is no Apple disk.
pub open spec fn spec_apple_guess_some(filename: Seq<u8>) -> bool {
    let ext = spec_ext_lower(filename);
    ext == seq![0x64u8, 0x6Fu8] || ext == seq![0x64u8, 0x73u8, 0x6Bu8] || ext == seq![
        0x6Eu8,
        0x69u8,
        0x62u8,
    ]
}

/// The format a nibble image is guessed as: the byte that ends the first
/// prologue picks the DOS family.
pub open spec fn spec_nib_format(data: Seq<u8>, filesize: u64) -> Format {
    match spec_find_prologue(data, 0) {
        Some(q) => if data[q + 2] == 0xB5 {
            Format::DOS32(filesize)
        } else {
            Format::DOS33(filesize)
        },
        None => Format::Unknown(filesize),
    }
}

/// The encoding an Apple guess carries for a recognised filename: `nib`
/// names a nibble image, `do` and `dsk` a plain one.
pub open spec fn spec_apple_guess_encoding(filename: Seq<u8>) -> Encoding {
    if spec_ext_lower(filename) == seq![0x6Eu8, 0x69u8, 0x62u8] {
        Encoding::Nibble
    } else {
        Encoding::Plain
    }
}

/// The format an Apple guess carries for a recognised filename, with the
/// data's length as the file size.
pub open spec fn spec_apple_guess_format(filename: Seq<u8>, data: Seq<u8>) -> Format {
    if spec_ext_lower(filename) == seq![0x6Eu8, 0x69u8, 0x62u8] {
        spec_nib_format(data, data.len() as u64)
    } else {
        Format::DOS33(data.len() as u64)
    }
}

/// Try to guess an Apple disk format from a filename and the image data.
/// The data's length stands in for the file size.
pub fn format_from_filename_and_data(filename: &str, data: &[u8]) -> (r: Option<AppleDiskGuess>)
    ensures
        r is Some <==> spec_apple_guess_some(filename.spec_bytes()),
        r matches Some(g) ==> g.data@ == data@ && g.encoding == spec_apple_guess_encoding(
            filename.spec_bytes(),
        ) && g.format == spec_apple_guess_format(filename.spec_bytes(), data@),
{
    let ext = filename_ext_lower(filename);
    let filesize: u64 = data.len() as u64;
    let is_do = ext.len() == 2 && ext[0] == 0x64 && ext[1] == 0x6F;
    let is_dsk = ext.len() == 3 && ext[0] == 0x64 && ext[1] == 0x73 && ext[2] == 0x6B;
    let is_nib = ext.len() == 3 && ext[0] == 0x6E && ext[1] == 0x69 && ext[2] == 0x62;
    proof {
        assert(is_do == (ext@ == seq![0x64u8, 0x6Fu8])) by {
            if is_do {
                assert(ext@ =~= seq![0x64u8, 0x6Fu8]);
            }
        }
        assert(is_dsk == (ext@ == seq![0x64u8, 0x73u8, 0x6Bu8])) by {
            if is_dsk {
                assert(ext@ =~= seq![0x64u8, 0x73u8, 0x6Bu8]);
            }
        }
        assert(is_nib == (ext@ == seq![0x6Eu8, 0x69u8, 0x62u8])) by {
            if is_nib {
                assert(ext@ =~= seq![0x6Eu8, 0x69u8, 0x62u8]);
            }
        }
    }
    if is_do || is_dsk {
        let mut image = Vec::new();
        image.extend_from_slice(data);
        Some(AppleDiskGuess::new(Encoding::Plain, Format::DOS33(filesize), image))
    } else if is_nib {
        let format = match recognize_prologue(data) {
            Some(b) => {
                if b == 0xB5 {
                    Format::DOS32(filesize)
                } else if b == 0x96 {
                    Format::DOS33(filesize)
                } else {
                    Format::Unknown(filesize)
                }
            },
            None => Format::Unknown(filesize),
        };
        let mut image = Vec::new();
        image.extend_from_slice(data);
        Some(AppleDiskGuess::new(Encoding::Nibble, format, image))
    } else {
        None
    }
}

/// Whether the image data carries the Apple DOS 3.3 magic: the boot bytes at
/// the start, and the catalog pointer and DOS release in the VTOC.
pub open spec fn spec_apple_magic(data: Seq<u8>) -> bool {
    &&& data.subrange(0, 9) == seq![0x01u8, 0xA5u8, 0x27u8, 0xC9u8, 0x09u8, 0xD0u8, 0x18u8, 0xA5u8, 0x2Bu8]
    &&& data[0x11001] == 0x11
    &&& data[0x11002] == 0x0F
    &&& data[0x11003] == 0x03
}

/// Try to guess an Apple disk format from magic bytes in the image: the
/// DOS 3.3 boot bytes at the start combined with the catalog pointer in the
/// VTOC identify a plain DOS 3.3 disk regardless of extension.
pub fn format_from_data(data: &[u8]) -> (r: Result<Option<AppleDiskGuess>, Error>)
    ensures
        r is Ok <==> (data@.len() >= 9 && (data@.subrange(0, 9) != seq![
            0x01u8,
            0xA5u8,
            0x27u8,
            0xC9u8,
            0x09u8,
            0xD0u8,
            0x18u8,
            0xA5u8,
            0x2Bu8,
        ] || data@.len() >= 0x11004)),
        r matches Ok(o) ==> (o is Some <==> data@.len() >= 0x11004 && spec_apple_magic(data@)),
        r matches Ok(Some(g)) ==> g.encoding == Encoding::Plain && g.format == Format::DOS33(
            data@.len() as u64,
        ) && g.data@ == data@,
        r matches Err(e) ==> e.kind matches ErrorKind::Message(_),
{
    let short = Err(Error::new(ErrorKind::new("Parsing requires more data")));
    if data.len() < 9 {
        return short;
    }
    let magic_ok = data[0] == 0x01 && data[1] == 0xA5 && data[2] == 0x27 && data[3] == 0xC9
        && data[4] == 0x09 && data[5] == 0xD0 && data[6] == 0x18 && data[7] == 0xA5 && data[8]
        == 0x2B;
    proof {
        assert(magic_ok == (data@.subrange(0, 9) == seq![
            0x01u8,
            0xA5u8,
            0x27u8,
            0xC9u8,
            0x09u8,
            0xD0u8,
            0x18u8,
            0xA5u8,
            0x2Bu8,
        ])) by {
            if magic_ok {
                assert(data@.subrange(0, 9) =~= seq![
                    0x01u8,
                    0xA5u8,
                    0x27u8,
                    0xC9u8,
                    0x09u8,
                    0xD0u8,
                    0x18u8,
                    0xA5u8,
                    0x2Bu8,
                ]);
            } else {
                assert(data@.subrange(0, 9).len() == 9);
            }
        }
    }
    if !magic_ok {
        return Ok(None);
    }
    if data.len() < 0x11004 {
        return short;
    }
    if data[0x11001] == 0x11 && data[0x11002] == 0x0F && data[0x11003] == 0x03 {
        let filesize: u64 = data.len() as u64;
        let mut image = Vec::new();
        image.extend_from_slice(data);
        Ok(Some(AppleDiskGuess::new(Encoding::Plain, Format::DOS33(filesize), image)))
    } else {
        Ok(None)
    }
}

/// Parse the tracks of an Apple disk: `number_of_tracks` consecutive runs of
/// `track_size` bytes.
pub fn apple_tracks_parser(track_size: usize, number_of_tracks: usize, data: &[u8], pos: usize) -> (r:
    Result<(Vec<Vec<u8>>, usize), Error>)
    requires
        track_size <= 0x10000,
        number_of_tracks <= 64,
    ensures
        r is Ok <==> pos + number_of_tracks * track_size <= data@.len(),
        r matches Ok((tracks, new_pos)) ==> tracks@.len() == number_of_tracks && new_pos == pos
            + number_of_tracks * track_size && forall|t: int|
            0 <= t < number_of_tracks ==> (#[trigger] tracks@[t])@ == data@.subrange(
                pos + t * track_size,
                pos + t * track_size + track_size,
            ),
        r matches Err(e) ==> e.kind matches ErrorKind::Message(_),
{
    proof {
        assert((number_of_tracks as u64) * (track_size as u64) <= 64 * 0x10000)
            by (nonlinear_arith)
            requires
                number_of_tracks <= 64,
                track_size <= 0x10000,
        ;
    }
    let need: u64 = (number_of_tracks as u64) * (track_size as u64);
    if pos > data.len() || ((data.len() - pos) as u64) < need {
        proof {
            assert(pos + number_of_tracks * track_size > data@.len()) by (nonlinear_arith)
                requires
                    pos > data@.len() || ((data@.len() - pos) as u64) < (number_of_tracks as u64) * (
                    track_size as u64),
                    pos <= usize::MAX,
                    data@.len() <= usize::MAX,
                    track_size <= 0x10000,
                    number_of_tracks <= 64,
            ;
        }
        return Err(Error::new(ErrorKind::new("Parsing requires more data")));
    }
    proof {
        assert(pos + number_of_tracks * track_size <= data@.len()) by (nonlinear_arith)
            requires
                pos <= data@.len(),
                ((data@.len() - pos) as u64) >= (number_of_tracks as u64) * (track_size as u64),
                track_size <= 0x10000,
                number_of_tracks <= 64,
        ;
    }
    let mut tracks: Vec<Vec<u8>> = Vec::new();
    let mut t: usize = 0;
    let mut p: usize = pos;
    while t < number_of_tracks
        invariant
            pos + number_of_tracks * track_size <= data@.len(),
            track_size <= 0x10000,
            number_of_tracks <= 64,
            t <= number_of_tracks,
            p == pos + t * track_size,
            tracks@.len() == t,
            forall|k: int|
                0 <= k < t ==> (#[trigger] tracks@[k])@ == data@.subrange(
                    pos + k * track_size,
                    pos + k * track_size + track_size,
                ),
        decreases number_of_tracks - t,
    {
        proof {
            assert(pos + t * track_size + track_size <= pos + number_of_tracks * track_size)
                by (nonlinear_arith)
                requires
                    t < number_of_tracks,
                    track_size >= 0,
            ;
        }
        let (track, np) = match take_bytes(data, p, track_size) {
            Some(v) => v,
            None => {
                return Err(Error::new(ErrorKind::new("Parsing requires more data")));
            },
        };
        tracks.push(track);
        p = np;
        proof {
            assert((t + 1) * track_size == t * track_size + track_size) by (nonlinear_arith);
        }
        t = t + 1;
    }
    Ok((tracks, p))
}

/// Parse the tracks of a 140K Apple DOS disk: 35 tracks of 4096 bytes, or
/// 40 tracks of 3584 bytes.  Any other geometry fails.
pub fn apple_140_k_dos_parser(guess: &AppleDiskGuess, tracks_per_disk: usize) -> (r: Result<
    Vec<Vec<u8>>,
    Error,
>)
    ensures
        r is Ok <==> ((tracks_per_disk == 35 || tracks_per_disk == 40) && 35 * 4096
            <= guess.data@.len()),
        r matches Ok(tracks) ==> {
            let track_size = if tracks_per_disk == 35 {
                4096int
            } else {
                3584int
            };
            &&& tracks@.len() == tracks_per_disk
            &&& forall|t: int|
                0 <= t < tracks_per_disk ==> (#[trigger] tracks@[t])@ == guess.data@.subrange(
                    t * track_size,
                    t * track_size + track_size,
                )
        },
{
    if tracks_per_disk == 35 {
        match apple_tracks_parser(4096, 35, guess.data.as_slice(), 0) {
            Ok((tracks, _)) => Ok(tracks),
            Err(e) => Err(e),
        }
    } else if tracks_per_disk == 40 {
        match apple_tracks_parser(3584, 40, guess.data.as_slice(), 0) {
            Ok((tracks, _)) => Ok(tracks),
            Err(e) => Err(e),
        }
    } else {
        Err(Error::new(ErrorKind::Invalid(InvalidErrorKind::Invalid("Unsupported track count".to_owned()))))
    }
}

/// The sectors of a 140K disk: 35 tracks of 16 sectors of 256 bytes.
pub open spec fn spec_disk_sectors(data: Seq<u8>) -> Seq<Seq<Seq<u8>>> {
    Seq::new(
        35,
        |t: int|
            Seq::new(
                16,
                |sct: int| data.subrange(t * 4096 + sct * 256, t * 4096 + sct * 256 + 256),
            ),
    )
}

/// Split the raw tracks of a 140K disk into 16 sectors of 256 bytes each.
fn split_tracks_into_sectors(raw_tracks: &Vec<Vec<u8>>, data: Ghost<Seq<u8>>) -> (tracks: Vec<
    Vec<Vec<u8>>,
>)
    requires
        raw_tracks@.len() == 35,
        forall|t: int|
            0 <= t < 35 ==> (#[trigger] raw_tracks@[t])@ == data@.subrange(
                t * 4096,
                t * 4096 + 4096,
            ),
        data@.len() >= 143360,
    ensures
        spec_tracks(tracks@) == spec_disk_sectors(data@),
        tracks@.len() == 35,
        forall|t: int| 0 <= t < 35 ==> (#[trigger] tracks@[t])@.len() == 16,
{
    let mut tracks: Vec<Vec<Vec<u8>>> = Vec::new();
    let mut t: usize = 0;
    while t < 35
        invariant
            raw_tracks@.len() == 35,
            forall|k: int|
                0 <= k < 35 ==> (#[trigger] raw_tracks@[k])@ == data@.subrange(
                    k * 4096,
                    k * 4096 + 4096,
                ),
            data@.len() >= 143360,
            t <= 35,
            tracks@.len() == t,
            forall|k: int| 0 <= k < t ==> (#[trigger] tracks@[k])@.len() == 16,
            forall|k: int, j: int|
                0 <= k < t && 0 <= j < 16 ==> (#[trigger] tracks@[k]@[j])@ == data@.subrange(
                    k * 4096 + j * 256,
                    k * 4096 + j * 256 + 256,
                ),
        decreases 35 - t,
    {
        let raw = &raw_tracks[t];
        let mut track_vec: Vec<Vec<u8>> = Vec::new();
        let mut sct: usize = 0;
        while sct < 16
            invariant
                raw@ == data@.subrange(t as int * 4096, t as int * 4096 + 4096),
                data@.len() >= 143360,
                t < 35,
                sct <= 16,
                track_vec@.len() == sct,
                forall|j: int|
                    0 <= j < sct ==> (#[trigger] track_vec@[j])@ == data@.subrange(
                        t as int * 4096 + j * 256,
                        t as int * 4096 + j * 256 + 256,
                    ),
            decreases 16 - sct,
        {
            let (sector, _) = match take_bytes(raw.as_slice(), sct * 256, 256) {
                Some(v) => v,
                None => (Vec::new(), 0),
            };
            proof {
                assert(t as int * 4096 <= 34 * 4096) by (nonlinear_arith)
                    requires
                        t < 35,
                ;
                assert(raw@.subrange(sct as int * 256, sct as int * 256 + 256) =~= data@.subrange(
                    t as int * 4096 + sct as int * 256,
                    t as int * 4096 + sct as int * 256 + 256,
                ));
            }
            track_vec.push(sector);
            sct = sct + 1;
        }
        tracks.push(track_vec);
        t = t + 1;
    }
    proof {
        assert forall|k: int| 0 <= k < 35 implies #[trigger] spec_tracks(tracks@)[k]
            == spec_disk_sectors(data@)[k] by {
            assert(spec_tracks(tracks@)[k] =~= spec_disk_sectors(data@)[k]);
        }
        assert(spec_tracks(tracks@) =~= spec_disk_sectors(data@));
    }
    tracks
}

/// Whether a 140K plain DOS 3.3 volume can be parsed out of the image data:
/// the image is large enough, the VTOC geometry is sane, the catalog chain
/// walks to its end, and every file can be built.
pub open spec fn spec_volume_ok(data: Seq<u8>) -> bool {
    let tv = spec_disk_sectors(data);
    let cs = data[(17 * 4096 + 2) as int] as int;
    &&& data.len() >= 143360
    &&& spec_vtoc_at(data, (17 * 4096) as int).spec_check()
    &&& spec_catalogs_wf(tv, 17, cs, 35)
    &&& spec_build_files_possible(tv, spec_catalogs_entries(tv, 17, cs, 35))
}

/// What a parsed 140K plain DOS 3.3 volume holds.
pub open spec fn spec_volume_result_ok(data: Seq<u8>, filesize: u64, d: AppleDisk) -> bool {
    let tv = spec_disk_sectors(data);
    let cs = data[(17 * 4096 + 2) as int] as int;
    &&& d.encoding == Encoding::Plain
    &&& d.format == Format::DOS33(filesize)
    &&& match d.data {
        AppleDiskData::DOS(dos) => {
            &&& dos.volume_table_of_contents@ == spec_vtoc_at(data, (17 * 4096) as int)
            &&& dos.catalog.file_entries@.map_values(|e: FileEntry| e@) == spec_catalogs_entries(
                tv,
                17,
                cs,
                35,
            )
            &&& spec_tracks(dos.tracks@) == tv
            &&& spec_built_files_ok(tv, spec_catalogs_entries(tv, 17, cs, 35), dos.files)
        },
        _ => false,
    }
}

/// Parse a DOS 3.3 disk volume out of a 140K image: slice the image into 35
/// tracks of 16 sectors, read and sanity-check the VTOC at track 17, walk
/// the catalog chain it points at, and build every file.
pub fn volume_parser(guess: &AppleDiskGuess, filesize: u64) -> (r: Result<AppleDisk, Error>)
    ensures
        r is Ok <==> spec_volume_ok(guess.data@),
        r matches Ok(d) ==> spec_volume_result_ok(guess.data@, filesize, d),
{
    let ghost gd = guess.data@;
    let raw_tracks = match apple_140_k_dos_parser(guess, 35) {
        Ok(v) => v,
        Err(e) => {
            return Err(e);
        },
    };

    // The catalog starts on track 17, where the VTOC lives.
    let vtoc_track = &raw_tracks[17];
    let (vtoc, _) = match parse_volume_table_of_contents(vtoc_track.as_slice(), 0) {
        Ok(v) => v,
        Err(e) => {
            return Err(e);
        },
    };
    proof {
        assert(vtoc_track@.subrange(0, 0 + 56 + 4 * spec_vtoc_bitmap_count(vtoc_track@, 0))
            =~= gd.subrange(
            (17 * 4096) as int,
            17 * 4096 + 56 + 4 * spec_vtoc_bitmap_count(vtoc_track@, 0),
        ));
        assert(vtoc@ =~~= spec_vtoc_at(gd, (17 * 4096) as int));
    }

    if !vtoc.check() {
        return Err(
            Error::new(ErrorKind::Invalid(InvalidErrorKind::Invalid("Invalid volume table of contents".to_owned()))),
        );
    }

    // The sector number of the first catalog sector is read from the third
    // byte of track 17.
    let catalog_sector = vtoc_track[2];
    proof {
        assert(catalog_sector == gd[(17 * 4096 + 2) as int]);
    }

    let tracks = split_tracks_into_sectors(&raw_tracks, Ghost(gd));

    let catalog = match parse_catalogs(&tracks, 17, catalog_sector) {
        Ok(c) => c,
        Err(e) => {
            return Err(e);
        },
    };

    let files = match build_files(catalog, &tracks) {
        Ok(f) => f,
        Err(e) => {
            return Err(e);
        },
    };

    // `build_files` consumed the catalog, so walk the chain once more for
    // the catalog kept in the result.
    let catalog = match parse_catalogs(&tracks, 17, catalog_sector) {
        Ok(c) => c,
        Err(e) => {
            return Err(e);
        },
    };

    let apple_dos_disk = AppleDOSDisk { volume_table_of_contents: vtoc, catalog, tracks, files };

    Ok(
        AppleDisk {
            encoding: Encoding::Plain,
            format: Format::DOS33(filesize),
            data: AppleDiskData::DOS(apple_dos_disk),
        },
    )
}

/// Whether an Apple disk can be parsed from a guess with the given
/// encoding, format and data: a plain guess must be a 140K DOS 3.3 image
/// whose volume parses; a nibble guess must scan and decode cleanly.
pub open spec fn spec_apple_parse_ok(
    ignore: bool,
    encoding: Encoding,
    format: Format,
    data: Seq<u8>,
) -> bool {
    match encoding {
        Encoding::Plain => {
            let filesize = match format {
                Format::DOS33(size) => size,
                _ => 0,
            };
            filesize == 143360 && spec_volume_ok(data)
        },
        Encoding::Nibble => crate::apple::nibble::spec_scan_insert_ok(
            ignore,
            crate::apple::nibble::spec_nib_fields(ignore, data),
            Seq::empty(),
        ),
    }
}

/// Whether an Apple disk can be parsed from a guess.
pub open spec fn spec_apple_disk_ok(ignore: bool, g: AppleDiskGuess) -> bool {
    spec_apple_parse_ok(ignore, g.encoding, g.format, g.data@)
}

/// What a disk parsed from a guess with the given encoding, format and data
/// holds: a decoded volume for a plain guess, and a sorted nibble disk whose
/// contents come from the field scan for a nibble guess.
pub open spec fn spec_apple_result_ok(
    ignore: bool,
    encoding: Encoding,
    format: Format,
    data: Seq<u8>,
    d: AppleDisk,
) -> bool {
    match encoding {
        Encoding::Plain => {
            let filesize = match format {
                Format::DOS33(size) => size,
                _ => 0,
            };
            spec_volume_result_ok(data, filesize, d)
        },
        Encoding::Nibble => {
            &&& d.encoding == encoding
            &&& d.format == format
            &&& match d.data {
                AppleDiskData::Nibble(disk) => {
                    let fields = crate::apple::nibble::spec_nib_fields(ignore, data);
                    &&& disk.spec_sorted()
                    &&& forall|v: u8, t: u8, sec: u8|
                        disk.spec_contains(v, t, sec)
                            == crate::apple::nibble::spec_scan_contains(fields, v, t, sec)
                    &&& forall|i: int|
                        0 <= i < disk.sectors@.len() ==> (#[trigger] disk.sectors@[i]).data@
                            == crate::apple::nibble::spec_transform_data_field(
                            crate::apple::nibble::spec_first_field(
                                fields,
                                disk.sectors@[i].volume,
                                disk.sectors@[i].track,
                                disk.sectors@[i].sector,
                            ).data,
                        )
                },
                _ => false,
            }
        },
    }
}

/// Parse an Apple ][ disk according to a guess: a plain 140K DOS 3.3 volume,
/// or a nibble-encoded disk.
pub fn apple_disk_parser(guess: &AppleDiskGuess, config: &crate::config::Config) -> (r: Result<
    AppleDisk,
    Error,
>)
    ensures
        r is Ok <==> spec_apple_disk_ok(config.ignore_checksums, *guess),
        r matches Ok(d) ==> spec_apple_result_ok(
            config.ignore_checksums,
            guess.encoding,
            guess.format,
            guess.data@,
            d,
        ),
{
    match guess.encoding {
        Encoding::Plain => {
            let filesize: u64 = match guess.format {
                Format::DOS33(size) => size,
                _ => 0,
            };
            if filesize == 143360 {
                volume_parser(guess, filesize)
            } else {
                Err(
                    Error::new(
                        ErrorKind::Invalid(InvalidErrorKind::Invalid("Unsupported image size".to_owned())),
                    ),
                )
            }
        },
        Encoding::Nibble => {
            match parse_nib_disk(config, guess.data.as_slice()) {
                Ok(disk) => Ok(
                    AppleDisk {
                        encoding: guess.encoding,
                        format: guess.format,
                        data: AppleDiskData::Nibble(disk),
                    },
                ),
                Err(e) => Err(e),
            }
        },
    }
}

/// Law: every parsed Apple DOS 3.3 disk has 35 or 40 tracks per diskette
/// and 13 or 16 sectors per track.  A volume only parses when its VTOC
/// passes the geometry check, and the parsed VTOC is the one the image
/// holds.
pub proof fn lemma_parsed_volume_geometry(data: Seq<u8>)
    requires
        spec_volume_ok(data),
    ensures
        ({
            let vtoc = spec_vtoc_at(data, (17 * 4096) as int);
            &&& (vtoc.number_of_tracks_per_diskette == 35 || vtoc.number_of_tracks_per_diskette
                == 40)
            &&& (vtoc.number_of_sectors_per_track == 13 || vtoc.number_of_sectors_per_track == 16)
        }),
{
}

} // verus!
