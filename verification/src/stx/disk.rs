//! STX disk-level structures and parsers.
use vstd::prelude::*;

verus! {

use crate::bytes::{read_u8, read_le_u16, spec_le_u16, take_bytes};
use crate::error::{Error, ErrorKind, InvalidErrorKind};
use crate::stx::track::{
    spec_track_result_ok,
    spec_tracks_ok,
    spec_tracks_pos,
    stx_tracks_parser,
    STXTrack,
};

/// STXDiskHeader contains information about an Atari ST STX floppy disk
/// image header, 16 bytes on disk.
pub struct STXDiskHeader {
    /// The disk identifier, `RSY\0`.
    pub disk_id: Vec<u8>,
    /// The version of the disk image, usually 3.
    pub version: u16,
    /// A 16-bit integer that indicates the tool used to create the image.
    pub tool_used: u16,
    /// First reserved area, two reserved bytes.
    pub reserved_area_1: Vec<u8>,
    /// The number of tracks on the disk.
    pub track_count: u8,
    /// Whether the disk is in the new format.
    pub new_format: u8,
    /// Second reserved area, four reserved bytes.
    pub reserved_area_2: Vec<u8>,
}

impl STXDiskHeader {
    /// Whether the header passes the sanity check: at most 164 tracks.
    pub open spec fn spec_check(self) -> bool {
        self.track_count <= 164
    }

    /// Sanity check for a disk header: the track count must be at most 164.
    pub fn check(&self) -> (r: bool)
        ensures
            r == self.spec_check(),
    {
        self.track_count <= 164
    }
}

/// Whether the four magic bytes `RSY\0` stand at `pos`.
pub open spec fn spec_disk_magic_ok(data: Seq<u8>, pos: int) -> bool {
    &&& data[pos] == 0x52
    &&& data[pos + 1] == 0x53
    &&& data[pos + 2] == 0x59
    &&& data[pos + 3] == 0x00
}

/// What a successfully parsed disk header holds.
pub open spec fn spec_disk_header_ok(data: Seq<u8>, pos: int, h: STXDiskHeader) -> bool {
    &&& h.disk_id@ == data.subrange(pos, pos + 4)
    &&& h.version == spec_le_u16(data[pos + 4], data[pos + 5])
    &&& h.tool_used == spec_le_u16(data[pos + 6], data[pos + 7])
    &&& h.reserved_area_1@ == data.subrange(pos + 8, pos + 10)
    &&& h.track_count == data[pos + 10]
    &&& h.new_format == data[pos + 11]
    &&& h.reserved_area_2@ == data.subrange(pos + 12, pos + 16)
}

/// Parse a STX disk header: the `RSY\0` magic, version, tool, track count
/// and new-format byte.
pub fn stx_disk_header_parser(data: &[u8], pos: usize) -> (r: Result<(STXDiskHeader, usize), Error>)
    ensures
        r is Ok <==> pos + 16 <= data@.len() && spec_disk_magic_ok(data@, pos as int),
        r matches Ok((h, new_pos)) ==> spec_disk_header_ok(data@, pos as int, h) && new_pos == pos
            + 16,
        pos + 16 > data@.len() ==> (r matches Err(e) && e.kind matches ErrorKind::Message(_)),
        pos + 16 <= data@.len() && !spec_disk_magic_ok(data@, pos as int) ==> (r matches Err(e)
            && e.kind matches ErrorKind::Invalid(InvalidErrorKind::Invalid(_))),
{
    let short = Err(Error::new(ErrorKind::new("Parsing requires more data")));
    if pos > data.len() || data.len() - pos < 16 {
        return short;
    }
    // The magic number: "RSY" followed by a zero byte.
    if !(data[pos] == 0x52 && data[pos + 1] == 0x53 && data[pos + 2] == 0x59 && data[pos + 3]
        == 0x00) {
        return Err(
            Error::new(
                ErrorKind::Invalid(
                    InvalidErrorKind::Invalid("Invalid STX disk identifier".to_owned()),
                ),
            ),
        );
    }
    let (disk_id, p) = match take_bytes(data, pos, 4) {
        Some(v) => v,
        None => {
            return short;
        },
    };
    let (version, p) = match read_le_u16(data, p) {
        Some(v) => v,
        None => {
            return short;
        },
    };
    let (tool_used, p) = match read_le_u16(data, p) {
        Some(v) => v,
        None => {
            return short;
        },
    };
    let (reserved_area_1, p) = match take_bytes(data, p, 2) {
        Some(v) => v,
        None => {
            return short;
        },
    };
    let (track_count, p) = match read_u8(data, p) {
        Some(v) => v,
        None => {
            return short;
        },
    };
    let (new_format, p) = match read_u8(data, p) {
        Some(v) => v,
        None => {
            return short;
        },
    };
    let (reserved_area_2, p) = match take_bytes(data, p, 4) {
        Some(v) => v,
        None => {
            return short;
        },
    };

    Ok(
        (
            STXDiskHeader {
                disk_id,
                version,
                tool_used,
                reserved_area_1,
                track_count,
                new_format,
                reserved_area_2,
            },
            p,
        ),
    )
}

/// Heuristic guess that an image is an Atari ST STX disk, holding the raw
/// image data.
pub struct STXDiskGuess {
    /// The raw image data.
    pub data: Vec<u8>,
}

/// A STX disk image: the disk header and the disk tracks.
pub struct STXDisk {
    /// The disk header.
    pub stx_disk_header: STXDiskHeader,
    /// The disk tracks.
    pub stx_tracks: Vec<STXTrack>,
}

/// Whether a whole STX disk image can be parsed at `pos`: the header with
/// its magic and sanity check, then one track block per counted track.
pub open spec fn spec_stx_disk_ok(data: Seq<u8>, pos: int) -> bool {
    &&& pos + 16 <= data.len()
    &&& spec_disk_magic_ok(data, pos)
    &&& data[pos + 10] <= 164
    &&& spec_tracks_ok(data, pos + 16, data[pos + 10] as int)
}

/// What a successfully parsed STX disk holds: its header and one parsed
/// track block per counted track.
pub open spec fn spec_stx_disk_result_ok(data: Seq<u8>, pos: int, disk: STXDisk) -> bool {
    let track_count = data[pos + 10] as int;
    &&& spec_disk_header_ok(data, pos, disk.stx_disk_header)
    &&& disk.stx_disk_header.spec_check()
    &&& disk.stx_tracks@.len() == track_count
    &&& forall|k: int|
        0 <= k < track_count ==> spec_track_result_ok(
            data,
            spec_tracks_pos(data, pos + 16, k),
            disk.stx_tracks@[k],
            spec_tracks_pos(data, pos + 16, k + 1),
        )
}

/// Parse a STX disk image: the header, then every track.
pub fn stx_disk_parser(data: &[u8], pos: usize) -> (r: Result<(STXDisk, usize), Error>)
    ensures
        r is Ok <==> spec_stx_disk_ok(data@, pos as int),
        r matches Ok((disk, new_pos)) ==> spec_stx_disk_result_ok(data@, pos as int, disk)
            && new_pos == spec_tracks_pos(data@, pos + 16, data@[pos + 10] as int),
        pos + 16 <= data@.len() && spec_disk_magic_ok(data@, pos as int) && data@[pos + 10] > 164
            ==> (r matches Err(e) && e.kind matches ErrorKind::Invalid(
            InvalidErrorKind::Invalid(_),
        )),
{
    let (stx_disk_header, p) = match stx_disk_header_parser(data, pos) {
        Ok(v) => v,
        Err(e) => {
            return Err(e);
        },
    };

    if !stx_disk_header.check() {
        return Err(
            Error::new(
                ErrorKind::Invalid(InvalidErrorKind::Invalid("Invalid track count".to_owned())),
            ),
        );
    }

    match stx_tracks_parser(stx_disk_header.track_count, data, p) {
        Ok((tracks, np)) => Ok((STXDisk { stx_disk_header, stx_tracks: tracks }, np)),
        Err(e) => Err(e),
    }
}

} // verus!
