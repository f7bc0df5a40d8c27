//! STX track structures and parsers.
use vstd::prelude::*;

verus! {

use crate::bytes::{read_u8, read_le_u16, read_le_u32, spec_le_u16, spec_le_u32};
use crate::error::{Error, ErrorKind, InvalidErrorKind};
use crate::stx::sector::{
    spec_sector_data_at,
    spec_sector_data_in_range,
    spec_sector_header_at,
    stx_sector_header_parser,
    stx_sector_parser_plain,
    STXSectorHeader,
};

/// The STXTrackHeader structure contains information about a single track in
/// a STX disk image, 16 bytes on disk.
#[derive(Clone, Copy, Debug, PartialEq, Eq, Structural)]
pub struct STXTrackHeader {
    /// The block size of this track in bytes: the byte span from this header
    /// to the next track's header.
    pub block_size: u32,
    /// The fuzzy sector mask size in bytes.  The fuzzy mask is used for copy
    /// protection; reading fuzzy bytes is not supported.
    pub fuzzy_size: u32,
    /// The number of sectors in this track.
    pub sectors_count: u16,
    /// Flags for this track.
    /// Bit 0: the track contains sector blocks rather than a plain dump.
    /// Bit 5: the track is protected.
    /// Bit 6: the track contains a track image.
    /// Bit 7: the track image has a sync position.
    pub flags: u16,
    /// The MFM size, also known as the track length.
    pub mfm_size: u16,
    /// The track number; bit 7 is the side of the floppy.
    pub track_number: u8,
    /// The record type or track type.
    pub record_type: u8,
}

impl STXTrackHeader {
    /// Whether the header passes the sanity checks: a recognised flags value,
    /// and no sectors promised when flag bit 6 is unset.
    pub open spec fn spec_check(self) -> bool {
        &&& (self.flags == 0x21 || self.flags == 0x61 || self.flags == 0xc1)
        &&& !(self.flags & 0x40 == 0 && self.sectors_count > 0)
    }

    /// Sanity checks for a track header.  These are less strict than magic
    /// number identification but are good indicators of corrupted data.
    pub fn check(&self) -> (r: bool)
        ensures
            r == self.spec_check(),
    {
        if (self.flags != 0x21) && (self.flags != 0x61) && (self.flags != 0xc1) {
            return false;
        }
        if ((self.flags & 0x40) == 0) && (self.sectors_count > 0) {
            return false;
        }
        true
    }
}

/// The track header encoded at byte offset `pos`.
pub open spec fn spec_track_header_at(data: Seq<u8>, pos: int) -> STXTrackHeader {
    STXTrackHeader {
        block_size: spec_le_u32(data[pos], data[pos + 1], data[pos + 2], data[pos + 3]),
        fuzzy_size: spec_le_u32(data[pos + 4], data[pos + 5], data[pos + 6], data[pos + 7]),
        sectors_count: spec_le_u16(data[pos + 8], data[pos + 9]),
        flags: spec_le_u16(data[pos + 10], data[pos + 11]),
        mfm_size: spec_le_u16(data[pos + 12], data[pos + 13]),
        track_number: data[pos + 14],
        record_type: data[pos + 15],
    }
}

/// Parse a single track header, 16 bytes.
pub fn stx_track_header_parser(data: &[u8], pos: usize) -> (r: Result<(STXTrackHeader, usize), Error>)
    ensures
        r is Ok <==> pos + 16 <= data@.len(),
        r matches Ok((h, new_pos)) ==> h == spec_track_header_at(data@, pos as int) && new_pos
            == pos + 16,
        r matches Err(e) ==> e.kind matches ErrorKind::Message(_),
{
    let short = Err(Error::new(ErrorKind::new("Parsing requires more data")));
    let (block_size, p) = match read_le_u32(data, pos) {
        Some(v) => v,
        None => {
            return short;
        },
    };
    let (fuzzy_size, p) = match read_le_u32(data, p) {
        Some(v) => v,
        None => {
            return short;
        },
    };
    let (sectors_count, p) = match read_le_u16(data, p) {
        Some(v) => v,
        None => {
            return short;
        },
    };
    let (flags, p) = match read_le_u16(data, p) {
        Some(v) => v,
        None => {
            return short;
        },
    };
    let (mfm_size, p) = match read_le_u16(data, p) {
        Some(v) => v,
        None => {
            return short;
        },
    };
    let (track_number, p) = match read_u8(data, p) {
        Some(v) => v,
        None => {
            return short;
        },
    };
    let (record_type, p) = match read_u8(data, p) {
        Some(v) => v,
        None => {
            return short;
        },
    };

    let stx_track_header = STXTrackHeader {
        block_size,
        fuzzy_size,
        sectors_count,
        flags,
        mfm_size,
        track_number,
        record_type,
    };
    proof {
        assert(stx_track_header == spec_track_header_at(data@, pos as int));
    }

    Ok((stx_track_header, p))
}

/// The track image data header, present after the sector headers when flag
/// bit 6 is set.
pub struct STXTrackImageHeader {
    /// The first sync offset; present only when flag bit 7 is also set.
    pub first_sync_offset: u16,
    /// The track image size; present when flag bit 6 is set.
    pub track_image_size: u16,
}

/// How many bytes the track image header takes for the given flags.
pub open spec fn spec_image_header_len(flags: u16) -> int {
    if flags & 0x40 != 0 && flags & 0x80 != 0 {
        4
    } else if flags & 0x40 != 0 {
        2
    } else {
        0
    }
}

/// Parse a STX track image header.  Which fields exist depends on the track
/// flags; an absent field is zero.
pub fn stx_track_image_header_parser(flags: u16, data: &[u8], pos: usize) -> (r: Result<
    (STXTrackImageHeader, usize),
    Error,
>)
    ensures
        r is Ok <==> (spec_image_header_len(flags) == 0 || pos + spec_image_header_len(flags)
            <= data@.len()),
        r matches Ok((h, new_pos)) ==> new_pos == pos + spec_image_header_len(flags) && {
            let sync_present = flags & 0x40 != 0 && flags & 0x80 != 0;
            let size_present = flags & 0x40 != 0;
            &&& h.first_sync_offset == if sync_present {
                spec_le_u16(data@[pos as int], data@[pos + 1])
            } else {
                0u16
            }
            &&& h.track_image_size == if size_present {
                if sync_present {
                    spec_le_u16(data@[pos + 2], data@[pos + 3])
                } else {
                    spec_le_u16(data@[pos as int], data@[pos + 1])
                }
            } else {
                0u16
            }
        },
        r matches Err(e) ==> e.kind matches ErrorKind::Message(_),
{
    let short = Err(Error::new(ErrorKind::new("Parsing requires more data")));
    let mut first_sync_offset: u16 = 0;
    let mut track_image_size: u16 = 0;
    let mut p: usize = pos;
    if ((flags & 0x40) != 0) && ((flags & 0x80) != 0) {
        match read_le_u16(data, p) {
            Some((v, np)) => {
                first_sync_offset = v;
                p = np;
            },
            None => {
                return short;
            },
        }
    }
    if (flags & 0x40) != 0 {
        match read_le_u16(data, p) {
            Some((v, np)) => {
                track_image_size = v;
                p = np;
            },
            None => {
                return short;
            },
        }
    }
    Ok((STXTrackImageHeader { first_sync_offset, track_image_size }, p))
}

/// The sector headers encoded back to back starting at byte offset `pos`.
pub open spec fn spec_sector_headers_at(data: Seq<u8>, pos: int, n: int) -> Seq<STXSectorHeader> {
    Seq::new(n as nat, |k: int| spec_sector_header_at(data, pos + 16 * k))
}

/// Whether `n` sector headers can be parsed at `pos`: each lies within the
/// input and each passes its CRC check.
pub open spec fn spec_sector_headers_ok(data: Seq<u8>, pos: int, n: int) -> bool
    decreases n,
{
    n <= 0 || (pos + 16 <= data.len() && spec_sector_header_at(data, pos).spec_check()
        && spec_sector_headers_ok(data, pos + 16, n - 1))
}

/// A run of sector headers that parses lies whole within the input.
pub proof fn lemma_sector_headers_ok_end(data: Seq<u8>, pos: int, n: int)
    requires
        spec_sector_headers_ok(data, pos, n),
        n >= 0,
        pos >= 0,
    ensures
        n > 0 ==> pos + 16 * n <= data.len(),
    decreases n,
{
    if n > 1 {
        lemma_sector_headers_ok_end(data, pos + 16, n - 1);
    }
}

/// Parse `n` consecutive sector headers, validating each CRC.
pub fn stx_sector_headers_parser(n: u16, data: &[u8], pos: usize) -> (r: Result<
    (Vec<STXSectorHeader>, usize),
    Error,
>)
    ensures
        r is Ok <==> spec_sector_headers_ok(data@, pos as int, n as int),
        r matches Ok((headers, new_pos)) ==> headers@ == spec_sector_headers_at(
            data@,
            pos as int,
            n as int,
        ) && new_pos == pos + 16 * n,
        r matches Err(e) ==> (e.kind matches ErrorKind::Message(_) || e.kind
            matches ErrorKind::Invalid(InvalidErrorKind::Checksum)),
{
    let mut headers: Vec<STXSectorHeader> = Vec::new();
    let mut i: u16 = 0;
    let mut cur: usize = pos;
    while i < n
        invariant
            i <= n,
            cur == pos + 16 * i,
            headers@.len() == i,
            spec_sector_headers_ok(data@, pos as int, n as int) <==> spec_sector_headers_ok(
                data@,
                cur as int,
                n - i,
            ),
            forall|k: int|
                0 <= k < i ==> headers@[k] == #[trigger] spec_sector_header_at(
                    data@,
                    pos + 16 * k,
                ),
        decreases n - i,
    {
        match stx_sector_header_parser(data, cur) {
            Ok((h, np)) => {
                headers.push(h);
                cur = np;
            },
            Err(e) => {
                proof {
                    assert(!spec_sector_headers_ok(data@, cur as int, n - i));
                }
                return Err(e);
            },
        }
        i = i + 1;
    }
    proof {
        assert(spec_sector_headers_ok(data@, cur as int, 0));
        assert(headers@ =~= spec_sector_headers_at(data@, pos as int, n as int));
    }
    Ok((headers, cur))
}

/// A STXTrack: the track header and, when present, the sector headers and
/// the sector data of the track.
pub struct STXTrack {
    /// The header for this track.
    pub header: STXTrackHeader,
    /// The sector headers in this track, present when the track is stored as
    /// sector blocks.
    pub sector_headers: Option<Vec<STXSectorHeader>>,
    /// The sector data for this track.
    pub sector_data: Option<Vec<Vec<u8>>>,
}

/// Whether a whole track block can be parsed at `pos`.
pub open spec fn spec_track_ok(data: Seq<u8>, pos: int) -> bool {
    let h = spec_track_header_at(data, pos);
    let n = h.sectors_count as int;
    let headers_end = pos + 16 + 16 * n;
    &&& pos + 16 <= data.len()
    &&& h.spec_check()
    &&& if h.flags & 1 != 1 {
        n > 0 ==> pos + 16 + n * 512 <= data.len()
    } else {
        &&& h.fuzzy_size == 0
        &&& n > 0 ==> {
            &&& spec_sector_headers_ok(data, pos + 16, n)
            &&& headers_end + spec_image_header_len(h.flags) <= data.len()
            &&& forall|k: int|
                0 <= k < n ==> #[trigger] spec_sector_data_in_range(
                    data,
                    headers_end,
                    spec_sector_headers_at(data, pos + 16, n)[k],
                )
        }
    }
    &&& pos + h.block_size <= data.len()
}

/// What a successfully parsed track holds, and where the next track begins.
pub open spec fn spec_track_result_ok(data: Seq<u8>, pos: int, t: STXTrack, np: int) -> bool {
    let h = spec_track_header_at(data, pos);
    let n = h.sectors_count as int;
    let headers_end = pos + 16 + 16 * n;
    &&& t.header == h
    &&& np == pos + h.block_size
    &&& if h.flags & 1 != 1 {
        &&& t.sector_headers is None
        &&& if n > 0 {
            match t.sector_data {
                Some(d) => d@.len() == n && forall|k: int|
                    0 <= k < n ==> d@[k]@ == data.subrange(
                        pos + 16 + k * 512,
                        pos + 16 + k * 512 + 512,
                    ),
                None => false,
            }
        } else {
            t.sector_data is None
        }
    } else {
        if n > 0 {
            &&& match t.sector_headers {
                Some(hs) => hs@ == spec_sector_headers_at(data, pos + 16, n),
                None => false,
            }
            &&& match t.sector_data {
                Some(d) => d@.len() == n && forall|k: int|
                    0 <= k < n ==> d@[k]@ == spec_sector_data_at(
                        data,
                        headers_end,
                        spec_sector_headers_at(data, pos + 16, n)[k],
                    ),
                None => false,
            }
        } else {
            t.sector_headers is None && t.sector_data is None
        }
    }
}

/// Parse a single track block.
///
/// The track header is read and sanity-checked.  A plain track (flag bit 0
/// unset) is a dump of 512-byte sectors right after the header.  A
/// sector-block track holds CRC-checked sector headers, an optional track
/// image header, and the sector data each header points at.  A non-empty
/// fuzzy mask is unsupported.  Whatever was parsed inside the block, the
/// next track begins `block_size` bytes after this track's header.
pub fn stx_track_parser(data: &[u8], pos: usize) -> (r: Result<(STXTrack, usize), Error>)
    ensures
        r is Ok <==> spec_track_ok(data@, pos as int),
        r matches Ok((t, np)) ==> spec_track_result_ok(data@, pos as int, t, np as int),
        pos + 16 <= data@.len() && !spec_track_header_at(data@, pos as int).spec_check() ==> (
        r matches Err(e) && e.kind matches ErrorKind::Invalid(InvalidErrorKind::Invalid(_))),
        pos + 16 <= data@.len() && spec_track_header_at(data@, pos as int).spec_check()
            && spec_track_header_at(data@, pos as int).flags & 1 == 1 && spec_track_header_at(
            data@,
            pos as int,
        ).fuzzy_size > 0 ==> (r matches Err(e) && e.kind matches ErrorKind::Unimplemented(_)),
{
    let ghost gpos: int = pos as int;
    let (stx_track_header, p) = match stx_track_header_parser(data, pos) {
        Ok(v) => v,
        Err(e) => {
            assert(!spec_track_ok(data@, gpos));
            return Err(e);
        },
    };
    let ghost gh = spec_track_header_at(data@, gpos);
    let ghost gn: int = gh.sectors_count as int;
    let ghost gheaders_end: int = gpos + 16 + 16 * gn;

    if !stx_track_header.check() {
        assert(!spec_track_ok(data@, gpos));
        return Err(
            Error::new(
                ErrorKind::Invalid(InvalidErrorKind::Invalid("Invalid track header".to_owned())),
            ),
        );
    }

    let n = stx_track_header.sectors_count;

    let (sector_headers, sector_data): (Option<Vec<STXSectorHeader>>, Option<Vec<Vec<u8>>>) = if (
    stx_track_header.flags & 0x01) != 0x01 {
        // A plain data track: `sectors_count` sectors of 512 bytes each,
        // captured as this track's sector data.  Every recognised flags
        // value has bit 0 set, so the sanity check above admits no plain
        // track; the branch stands for the format's sake.
        if n > 0 {
            match stx_sector_parser_plain(n as usize, data, p) {
                Ok((plain, _)) => (None, Some(plain.contents)),
                Err(e) => {
                    assert(!spec_track_ok(data@, gpos));
                    return Err(e);
                },
            }
        } else {
            (None, None)
        }
    } else {
        // A set of sector blocks.  Fuzzy byte reading is not implemented.
        if stx_track_header.fuzzy_size > 0 {
            assert(!spec_track_ok(data@, gpos));
            return Err(
                Error::new(
                    ErrorKind::Unimplemented("Fuzzy bytes reading not implemented".to_owned()),
                ),
            );
        }
        if n > 0 {
            let (headers, headers_end) = match stx_sector_headers_parser(n, data, p) {
                Ok(v) => v,
                Err(e) => {
                    assert(!spec_track_ok(data@, gpos));
                    return Err(e);
                },
            };
            proof {
                lemma_sector_headers_ok_end(data@, gpos + 16, gn);
                assert(gheaders_end <= data@.len());
            }
            // The track image header follows the headers and the (empty)
            // fuzzy mask; its contents are not kept, but it must parse.
            match stx_track_image_header_parser(stx_track_header.flags, data, headers_end) {
                Ok(_) => (),
                Err(e) => {
                    assert(!spec_track_ok(data@, gpos));
                    return Err(e);
                },
            }
            // Each sector's data offset is relative to the end of the
            // headers and the fuzzy mask.
            match crate::stx::sector::stx_sector_data_parser(
                headers.as_slice(),
                data,
                headers_end,
            ) {
                Ok(d) => (Some(headers), Some(d)),
                Err(e) => {
                    proof {
                        assert(!(forall|k: int|
                            0 <= k < gn ==> #[trigger] spec_sector_data_in_range(
                                data@,
                                gheaders_end,
                                spec_sector_headers_at(data@, gpos + 16, gn)[k],
                            )));
                        assert(!spec_track_ok(data@, gpos));
                    }
                    return Err(e);
                },
            }
        } else {
            (None, None)
        }
    };

    // Whatever was parsed inside the block, the next track begins
    // `block_size` bytes after the start of this track's header.
    if ((data.len() - pos) as u64) < stx_track_header.block_size as u64 {
        assert(!spec_track_ok(data@, gpos));
        return Err(Error::new(ErrorKind::new("Parsing requires more data")));
    }
    let np: usize = pos + stx_track_header.block_size as usize;

    proof {
        assert(spec_track_ok(data@, gpos));
    }
    Ok((STXTrack { header: stx_track_header, sector_headers, sector_data }, np))
}

/// Where the track block starting at `pos` ends.
pub open spec fn spec_track_next(data: Seq<u8>, pos: int) -> int {
    pos + spec_track_header_at(data, pos).block_size
}

/// Whether `n` consecutive track blocks can be parsed starting at `pos`.
pub open spec fn spec_tracks_ok(data: Seq<u8>, pos: int, n: int) -> bool
    decreases n,
{
    n <= 0 || (spec_track_ok(data, pos) && spec_tracks_ok(data, spec_track_next(data, pos), n - 1))
}

/// Where the `k`-th of the consecutive track blocks starting at `pos` begins.
pub open spec fn spec_tracks_pos(data: Seq<u8>, pos: int, k: int) -> int
    decreases k,
{
    if k <= 0 {
        pos
    } else {
        spec_track_next(data, spec_tracks_pos(data, pos, k - 1))
    }
}

/// Get `n` tracks from the disk.
pub fn stx_tracks_parser(n: u8, data: &[u8], pos: usize) -> (r: Result<(Vec<STXTrack>, usize), Error>)
    ensures
        r is Ok <==> spec_tracks_ok(data@, pos as int, n as int),
        r matches Ok((tracks, np)) ==> tracks@.len() == n && np == spec_tracks_pos(
            data@,
            pos as int,
            n as int,
        ) && forall|k: int|
            0 <= k < n ==> spec_track_result_ok(
                data@,
                spec_tracks_pos(data@, pos as int, k),
                tracks@[k],
                spec_tracks_pos(data@, pos as int, k + 1),
            ),
{
    let mut tracks: Vec<STXTrack> = Vec::new();
    let mut i: u8 = 0;
    let mut cur: usize = pos;
    while i < n
        invariant
            i <= n,
            cur == spec_tracks_pos(data@, pos as int, i as int),
            tracks@.len() == i,
            spec_tracks_ok(data@, pos as int, n as int) <==> spec_tracks_ok(
                data@,
                cur as int,
                n - i,
            ),
            forall|k: int|
                0 <= k < i ==> spec_track_result_ok(
                    data@,
                    spec_tracks_pos(data@, pos as int, k),
                    tracks@[k],
                    spec_tracks_pos(data@, pos as int, k + 1),
                ),
        decreases n - i,
    {
        match stx_track_parser(data, cur) {
            Ok((t, np)) => {
                proof {
                    assert(spec_tracks_pos(data@, pos as int, i + 1) == spec_track_next(
                        data@,
                        spec_tracks_pos(data@, pos as int, i as int),
                    ));
                }
                tracks.push(t);
                cur = np;
            },
            Err(e) => {
                proof {
                    assert(!spec_tracks_ok(data@, cur as int, n - i));
                }
                return Err(e);
            },
        }
        i = i + 1;
    }
    Ok((tracks, cur))
}

} // verus!

