//! Common functions and types for reading disk images: the unified
//! `DiskImage` over every supported format, the guessing of a format from a
//! filename and image data, and the flat payloads that saving writes out.
use vstd::prelude::*;

verus! {

use crate::apple::disk::{
    apple_disk_parser,
    format_from_data,
    spec_apple_disk_ok,
    spec_apple_guess_encoding,
    spec_apple_guess_format,
    spec_apple_guess_some,
    spec_apple_magic,
    spec_apple_parse_ok,
    spec_apple_result_ok,
    spec_ext_lower,
    AppleDisk,
    AppleDiskData,
    AppleDiskGuess,
    Encoding,
    Format,
};
use crate::apple::nibble::NibbleSector;
use crate::commodore::d64::{d64_disk_parser, spec_d64_bam_ok, spec_d64_disk_result_ok, D64Disk};
use crate::commodore::disk::CommodoreDiskGuess;
use crate::error::{Error, ErrorKind, InvalidErrorKind};
use crate::stx::disk::{
    spec_stx_disk_ok,
    spec_stx_disk_result_ok,
    stx_disk_parser,
    STXDisk,
    STXDiskGuess,
};
use crate::stx::track::STXTrack;
use vstd::string::{StringExecFns, StringSliceAdditionalSpecFns};

/// DiskImage is the primary enumeration holding decoded disk images.
pub enum DiskImage {
    /// A Commodore 64 D64 disk image.
    D64(D64Disk),
    /// An Atari ST STX disk image; its raw data is usually a FAT12
    /// filesystem.
    STX(STXDisk),
    /// An Apple ][ disk image, plain or nibble encoded.
    Apple(AppleDisk),
}

/// The result of heuristics to guess a disk image's format.  The guess owns
/// a copy of the raw image data and guides the parsing.
pub enum DiskImageGuess {
    /// A Commodore D64 disk image.
    Commodore(CommodoreDiskGuess),
    /// An Atari ST STX disk image.
    STX(STXDiskGuess),
    /// An Apple ][ disk image.
    Apple(AppleDiskGuess),
}

/// The flat bytes of a run of byte vectors, concatenated in order.
pub open spec fn spec_vecs_flat(d: Seq<Vec<u8>>) -> Seq<u8>
    decreases d.len(),
{
    if d.len() == 0 {
        Seq::empty()
    } else {
        spec_vecs_flat(d.drop_last()) + d.last()@
    }
}

/// The flat sector data of a run of STX tracks: each track's sector data in
/// stored order; a track without sector data contributes nothing.
pub open spec fn spec_stx_flat(tracks: Seq<STXTrack>) -> Seq<u8>
    decreases tracks.len(),
{
    if tracks.len() == 0 {
        Seq::empty()
    } else {
        spec_stx_flat(tracks.drop_last()) + match tracks.last().sector_data {
            Some(d) => spec_vecs_flat(d@),
            None => Seq::empty(),
        }
    }
}

/// Concatenate a run of byte vectors.
fn flatten_vecs(d: &Vec<Vec<u8>>) -> (r: Vec<u8>)
    ensures
        r@ == spec_vecs_flat(d@),
{
    let mut r: Vec<u8> = Vec::new();
    let mut i: usize = 0;
    while i < d.len()
        invariant
            i <= d@.len(),
            r@ == spec_vecs_flat(d@.take(i as int)),
        decreases d@.len() - i,
    {
        r.extend_from_slice(d[i].as_slice());
        proof {
            assert(d@.take(i + 1).drop_last() =~= d@.take(i as int));
            assert(d@.take(i + 1).last() == d@[i as int]);
        }
        i = i + 1;
    }
    proof {
        assert(d@.take(d@.len() as int) =~= d@);
    }
    r
}

/// The flat decoded data of a nibble disk: every sector's 256 bytes, in
/// ascending volume, track and sector order.
pub open spec fn spec_nibble_flat(sectors: Seq<NibbleSector>) -> Seq<u8>
    decreases sectors.len(),
{
    if sectors.len() == 0 {
        Seq::empty()
    } else {
        spec_nibble_flat(sectors.drop_last()) + sectors.last().data@
    }
}

/// Collect the actual disk image data of a disk image: for a STX disk, the
/// concatenation of every track's sector data.  Other image types have no
/// flat payload here.
pub fn disk_image_data(disk_image: &DiskImage) -> (r: Option<Vec<u8>>)
    ensures
        match disk_image {
            DiskImage::STX(stx) => r matches Some(v) && v@ == spec_stx_flat(stx.stx_tracks@),
            _ => r is None,
        },
{
    match disk_image {
        DiskImage::STX(image_data) => {
            let mut out: Vec<u8> = Vec::new();
            let tracks = &image_data.stx_tracks;
            let mut i: usize = 0;
            while i < tracks.len()
                invariant
                    out@ == spec_stx_flat(tracks@.take(i as int)),
                    i <= tracks@.len(),
                decreases tracks@.len() - i,
            {
                match &tracks[i].sector_data {
                    Some(d) => {
                        let mut flat = flatten_vecs(d);
                        out.append(&mut flat);
                    },
                    None => (),
                }
                proof {
                    assert(tracks@.take(i + 1).drop_last() =~= tracks@.take(i as int));
                    assert(tracks@.take(i + 1).last() == tracks@[i as int]);
                }
                i = i + 1;
            }
            proof {
                assert(tracks@.take(tracks@.len() as int) =~= tracks@);
            }
            Some(out)
        },
        _ => None,
    }
}

impl DiskImage {
    /// List the contents of the disk.  Only D64 disks have a listing; other
    /// image types are unsupported.
    pub fn catalog(&self) -> (r: Result<String, Error>)
        requires
            self matches DiskImage::D64(d) ==> d.bam.disk_name.bytes@.len() == 16 && forall|k: int|
                0 <= k < d.directory.file_entries@.len() ==> (
                #[trigger] d.directory.file_entries@[k]).file_name.bytes@.len() == 16,
        ensures
            match self {
                DiskImage::D64(d) => r matches Ok(s) && s@
                    == crate::commodore::d64::petscii_display_of(d.bam.disk_name.bytes@) + "\n"@
                    + crate::commodore::d64::spec_d64_catalog_lines(d.directory.file_entries@),
                _ => (r matches Err(e) && e.kind matches ErrorKind::Unimplemented(m) && m@
                    == "Saving unknown disk images not implemented\n"@),
            },
    {
        match self {
            DiskImage::D64(d64_image) => Ok(d64_image.catalog()),
            _ => Err(
                Error::new(
                    ErrorKind::Unimplemented(
                        "Saving unknown disk images not implemented\n".to_owned(),
                    ),
                ),
            ),
        }
    }

    /// The flat payload that saving this image writes out: the decoded
    /// sectors of a nibble disk, the selected file of a DOS 3.3 disk, or the
    /// sector data of a STX disk.
    ///
    /// Saving a DOS 3.3 disk extracts one file: a missing selection is an
    /// error, and so is a name the catalog does not list.
    pub fn save_disk_image_payload(&self, selected_filename: Option<&str>) -> (r: Result<
        Vec<u8>,
        Error,
    >)
        ensures
            match self {
                DiskImage::STX(stx) => r matches Ok(v) && v@ == spec_stx_flat(stx.stx_tracks@),
                DiskImage::Apple(apple) => match apple.data {
                    AppleDiskData::Nibble(nd) => r matches Ok(v) && v@ == spec_nibble_flat(
                        nd.sectors@,
                    ),
                    AppleDiskData::DOS(dos) => {
                        &&& (selected_filename is None ==> (r matches Err(e) && e.kind
                            matches ErrorKind::Message(m) && m@
                            == "Filename must be specified for saving Apple DOS 3.3 images"@))
                        &&& match selected_filename {
                            Some(name) => {
                                if exists|k: int|
                                    0 <= k < dos.files.entries@.len() && (
                                    #[trigger] dos.files.entries@[k]).name@ == name@ {
                                    r matches Ok(v) && exists|k: int|
                                        0 <= k < dos.files.entries@.len() && (
                                        #[trigger] dos.files.entries@[k]).name@ == name@ && v@
                                            == dos.files.entries@[k].file.data@
                                } else {
                                    r matches Err(e) && e.kind matches ErrorKind::NotFound(m) && m@
                                        == "File not found in catalog"@
                                }
                            },
                            None => true,
                        }
                    },
                    AppleDiskData::ProDOS => (r matches Err(e) && e.kind
                        matches ErrorKind::Unimplemented(m) && m@
                        == "Saving unknown Apple disk images not implemented\n"@),
                },
                DiskImage::D64(_) => (r matches Err(e) && e.kind
                    matches ErrorKind::Unimplemented(m) && m@
                    == "Saving unknown disk images not implemented\n"@),
            },
    {
        match self {
            DiskImage::STX(_) => {
                match disk_image_data(self) {
                    Some(v) => Ok(v),
                    None => Err(
                        Error::new(ErrorKind::Unimplemented("No image data".to_owned())),
                    ),
                }
            },
            DiskImage::Apple(apple_image) => match &apple_image.data {
                AppleDiskData::Nibble(nibble_image) => {
                    let mut out: Vec<u8> = Vec::new();
                    let sectors = &nibble_image.sectors;
                    let mut i: usize = 0;
                    while i < sectors.len()
                        invariant
                            out@ == spec_nibble_flat(sectors@.take(i as int)),
                            i <= sectors@.len(),
                        decreases sectors@.len() - i,
                    {
                        out.extend_from_slice(sectors[i].data.as_slice());
                        proof {
                            assert(sectors@.take(i + 1).drop_last() =~= sectors@.take(i as int));
                            assert(sectors@.take(i + 1).last() == sectors@[i as int]);
                        }
                        i = i + 1;
                    }
                    proof {
                        assert(sectors@.take(sectors@.len() as int) =~= sectors@);
                    }
                    Ok(out)
                },
                AppleDiskData::DOS(dos_image) => {
                    match selected_filename {
                        None => Err(
                            Error::new(
                                ErrorKind::Message(
                                    "Filename must be specified for saving Apple DOS 3.3 images".to_owned(),
                                ),
                            ),
                        ),
                        Some(name) => {
                            match dos_image.files.get(name) {
                                Some(file) => {
                                    let mut out: Vec<u8> = Vec::new();
                                    out.extend_from_slice(file.data.as_slice());
                                    Ok(out)
                                },
                                None => Err(
                                    Error::new(
                                        ErrorKind::NotFound("File not found in catalog".to_owned()),
                                    ),
                                ),
                            }
                        },
                    }
                },
                AppleDiskData::ProDOS => Err(
                    Error::new(
                        ErrorKind::Unimplemented(
                            "Saving unknown Apple disk images not implemented\n".to_owned(),
                        ),
                    ),
                ),
            },
            DiskImage::D64(_) => Err(
                Error::new(
                    ErrorKind::Unimplemented(
                        "Saving unknown disk images not implemented\n".to_owned(),
                    ),
                ),
            ),
        }
    }
}

/// Whether the data carries the Apple DOS 3.3 magic bytes and is long
/// enough to check them.
pub open spec fn spec_magic_guess_some(data: Seq<u8>) -> bool {
    data.len() >= 0x11004 && spec_apple_magic(data)
}

/// Guess an image format from a filename and the image data: a Commodore
/// guess takes precedence, then an Apple guess by extension; when neither
/// recognises the name, the Apple DOS 3.3 magic bytes are tried.
pub fn format_from_filename_and_data(filename: &str, data: &[u8]) -> (r: Option<DiskImageGuess>)
    ensures
        r is Some <==> (spec_ext_lower(filename.spec_bytes()) == seq![0x64u8, 0x36u8, 0x34u8]
            || spec_apple_guess_some(filename.spec_bytes()) || spec_magic_guess_some(data@)),
        r matches Some(g) ==> match g {
            DiskImageGuess::Commodore(c) => spec_ext_lower(filename.spec_bytes()) == seq![
                0x64u8,
                0x36u8,
                0x34u8,
            ] && c.format == crate::commodore::disk::Format::D64(data@.len() as u64) && c.data@
                == data@,
            DiskImageGuess::Apple(a) => spec_ext_lower(filename.spec_bytes()) != seq![
                0x64u8,
                0x36u8,
                0x34u8,
            ] && a.data@ == data@ && if spec_apple_guess_some(filename.spec_bytes()) {
                a.encoding == spec_apple_guess_encoding(filename.spec_bytes()) && a.format
                    == spec_apple_guess_format(filename.spec_bytes(), data@)
            } else {
                spec_magic_guess_some(data@) && a.encoding == Encoding::Plain && a.format
                    == Format::DOS33(data@.len() as u64)
            },
            DiskImageGuess::STX(_) => false,
        },
{
    let commodore_res = CommodoreDiskGuess::guess(filename, data);
    match commodore_res {
        Some(g) => Some(DiskImageGuess::Commodore(g)),
        None => {
            match crate::apple::disk::format_from_filename_and_data(filename, data) {
                Some(g) => Some(DiskImageGuess::Apple(g)),
                None => {
                    // Neither extension is recognised: try the DOS 3.3
                    // magic bytes inside the image.
                    match format_from_data(data) {
                        Ok(Some(g)) => Some(DiskImageGuess::Apple(g)),
                        _ => None,
                    }
                },
            }
        },
    }
}

impl DiskImageGuess {
    /// Parse an entire disk according to this guess, returning a DiskImage.
    /// Parsing Commodore and STX images from a guess is not implemented
    /// through this path.
    pub fn parse_disk_image(&self, config: &crate::config::Config) -> (r: Result<DiskImage, Error>)
        ensures
            match self {
                DiskImageGuess::Apple(g) => {
                    &&& (r is Ok <==> spec_apple_disk_ok(config.ignore_checksums, *g))
                    &&& (r matches Ok(d) ==> (d matches DiskImage::Apple(a)
                        && spec_apple_result_ok(
                        config.ignore_checksums,
                        g.encoding,
                        g.format,
                        g.data@,
                        a,
                    )))
                },
                _ => (r matches Err(e) && e.kind matches ErrorKind::Unimplemented(m) && m@
                    == "Error parsing image from guess"@),
            },
    {
        match self {
            DiskImageGuess::Apple(guess) => {
                match apple_disk_parser(guess, config) {
                    Ok(d) => Ok(DiskImage::Apple(d)),
                    Err(e) => Err(e),
                }
            },
            _ => Err(
                Error::new(ErrorKind::Unimplemented("Error parsing image from guess".to_owned())),
            ),
        }
    }
}

/// Parse a file's data into a disk image, guided by a guess from its
/// filename: a `d64` file is parsed as a Commodore disk, an Apple extension
/// as an Apple disk, and an unrecognised name whose data carries the Apple
/// DOS 3.3 magic as a plain Apple disk.
pub fn file_parser(filename: &str, data: &[u8], config: &crate::config::Config) -> (r: Result<
    DiskImage,
    Error,
>)
    requires
        spec_ext_lower(filename.spec_bytes()) == seq![0x64u8, 0x36u8, 0x34u8]
            || spec_apple_guess_some(filename.spec_bytes()) || spec_magic_guess_some(data@),
    ensures
        spec_ext_lower(filename.spec_bytes()) == seq![0x64u8, 0x36u8, 0x34u8] ==> {
            &&& (r is Ok <==> spec_d64_bam_ok(data@) && data@.len() >= 0x16600 + 242)
            &&& (r matches Ok(d) ==> (d matches DiskImage::D64(disk) && spec_d64_disk_result_ok(
                data@,
                disk,
            )))
        },
        spec_ext_lower(filename.spec_bytes()) != seq![0x64u8, 0x36u8, 0x34u8]
            && spec_apple_guess_some(filename.spec_bytes()) ==> {
            let encoding = spec_apple_guess_encoding(filename.spec_bytes());
            let format = spec_apple_guess_format(filename.spec_bytes(), data@);
            &&& (r is Ok <==> spec_apple_parse_ok(config.ignore_checksums, encoding, format, data@))
            &&& (r matches Ok(d) ==> (d matches DiskImage::Apple(a) && spec_apple_result_ok(
                config.ignore_checksums,
                encoding,
                format,
                data@,
                a,
            )))
        },
        spec_ext_lower(filename.spec_bytes()) != seq![0x64u8, 0x36u8, 0x34u8]
            && !spec_apple_guess_some(filename.spec_bytes()) ==> {
            let format = Format::DOS33(data@.len() as u64);
            &&& (r is Ok <==> spec_apple_parse_ok(
                config.ignore_checksums,
                Encoding::Plain,
                format,
                data@,
            ))
            &&& (r matches Ok(d) ==> (d matches DiskImage::Apple(a) && spec_apple_result_ok(
                config.ignore_checksums,
                Encoding::Plain,
                format,
                data@,
                a,
            )))
        },
{
    let guess_image_type = format_from_filename_and_data(filename, data);
    match guess_image_type {
        Some(guess) => match guess {
            DiskImageGuess::Apple(apple_guess) => {
                match apple_disk_parser(&apple_guess, config) {
                    Ok(d) => Ok(DiskImage::Apple(d)),
                    Err(e) => Err(e),
                }
            },
            DiskImageGuess::Commodore(commodore_guess) => {
                match d64_disk_parser(commodore_guess.data.as_slice()) {
                    Ok((d, _)) => Ok(DiskImage::D64(d)),
                    Err(e) => Err(e),
                }
            },
            DiskImageGuess::STX(_) => Err(
                Error::new(ErrorKind::Unimplemented("Error parsing image from guess".to_owned())),
            ),
        },
        None => {
            proof {
                assert(false);
            }
            Err(Error::new(ErrorKind::new("Unreachable")))
        },
    }
}

/// Parse a disk image without a filename: the supported disk parsers are
/// tried in turn, Commodore first, then Atari STX.
pub fn disk_image_parser(data: &[u8]) -> (r: Result<DiskImage, Error>)
    ensures
        r is Ok <==> ((spec_d64_bam_ok(data@) && data@.len() >= 0x16600 + 242) || spec_stx_disk_ok(
            data@,
            0,
        )),
        spec_d64_bam_ok(data@) && data@.len() >= 0x16600 + 242 ==> (r matches Ok(d) && d
            matches DiskImage::D64(disk) && spec_d64_disk_result_ok(data@, disk)),
        !(spec_d64_bam_ok(data@) && data@.len() >= 0x16600 + 242) && spec_stx_disk_ok(data@, 0)
            ==> (r matches Ok(d) && d matches DiskImage::STX(disk) && spec_stx_disk_result_ok(
            data@,
            0,
            disk,
        )),
{
    match d64_disk_parser(data) {
        Ok((d, _)) => Ok(DiskImage::D64(d)),
        Err(_) => {
            match stx_disk_parser(data, 0) {
                Ok((d, _)) => Ok(DiskImage::STX(d)),
                Err(e) => Err(e),
            }
        },
    }
}

} // verus!
