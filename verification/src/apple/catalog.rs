//! Catalog structures and files for an Apple DOS 3.3 disk.
use vstd::prelude::*;

verus! {

use crate::bytes::{read_u8, read_le_u16, spec_le_u16, take_bytes};
use crate::error::{Error, ErrorKind, InvalidErrorKind};
use crate::text::{ascii_bytes_to_string, spec_dec_digits, u64_to_dec_string};
use vstd::string::{StringSliceAdditionalSpecFns, StrSliceExecFns};

/// Different file types of an Apple DOS 3.3 catalog entry.
#[derive(Clone, Copy, Debug, PartialEq, Eq, Structural)]
pub enum FileType {
    /// Text file.
    Text,
    /// Integer BASIC file.
    IntegerBasic,
    /// AppleSoft BASIC file.
    AppleSoftBasic,
    /// Binary file.
    Binary,
    /// S type file.
    SType,
    /// Relocatable object module file.
    RelocatableObjectModule,
    /// A type file.
    AType,
    /// B type file.
    BType,
    /// Unknown file type.
    Unknown,
}

/// The on-disk code of a file type, without the locked bit.
pub open spec fn spec_file_type_code(t: FileType) -> u8 {
    match t {
        FileType::Text => 0,
        FileType::IntegerBasic => 1,
        FileType::AppleSoftBasic => 2,
        FileType::Binary => 4,
        FileType::SType => 8,
        FileType::RelocatableObjectModule => 10,
        FileType::AType => 20,
        FileType::BType => 40,
        FileType::Unknown => 41,
    }
}

/// The file type a masked on-disk code stands for: the low seven bits of the
/// type byte.
pub open spec fn spec_file_type_from_code(code: u8) -> FileType {
    let masked = code & 0x7F;
    if masked == 0 {
        FileType::Text
    } else if masked == 1 {
        FileType::IntegerBasic
    } else if masked == 2 {
        FileType::AppleSoftBasic
    } else if masked == 4 {
        FileType::Binary
    } else if masked == 8 {
        FileType::SType
    } else if masked == 10 {
        FileType::RelocatableObjectModule
    } else if masked == 20 {
        FileType::AType
    } else if masked == 40 {
        FileType::BType
    } else {
        FileType::Unknown
    }
}

impl FileType {
    /// The on-disk code of this file type, without the locked bit.
    pub fn code(&self) -> (r: u8)
        ensures
            r == spec_file_type_code(*self),
    {
        match self {
            FileType::Text => 0,
            FileType::IntegerBasic => 1,
            FileType::AppleSoftBasic => 2,
            FileType::Binary => 4,
            FileType::SType => 8,
            FileType::RelocatableObjectModule => 10,
            FileType::AType => 20,
            FileType::BType => 40,
            FileType::Unknown => 41,
        }
    }

    /// The file type a type byte stands for; the high bit is ignored.
    pub fn from_code(code: u8) -> (r: FileType)
        ensures
            r == spec_file_type_from_code(code),
    {
        match code & 0x7F {
            0 => FileType::Text,
            1 => FileType::IntegerBasic,
            2 => FileType::AppleSoftBasic,
            4 => FileType::Binary,
            8 => FileType::SType,
            10 => FileType::RelocatableObjectModule,
            20 => FileType::AType,
            40 => FileType::BType,
            _ => FileType::Unknown,
        }
    }

    /// What the display letter of this file type says.
    pub open spec fn spec_display_str(self) -> Seq<char> {
        match self {
            FileType::Text => "T"@,
            FileType::IntegerBasic => "I"@,
            FileType::AppleSoftBasic => "A"@,
            FileType::Binary => "B"@,
            FileType::SType => "S"@,
            FileType::RelocatableObjectModule => "R"@,
            FileType::AType => "AT"@,
            FileType::BType => "BT"@,
            FileType::Unknown => "U"@,
        }
    }

    /// The display letter of this file type, one or two characters.
    pub fn display_str(&self) -> (r: &'static str)
        ensures
            r@ == self.spec_display_str(),
    {
        match self {
            FileType::Text => "T",
            FileType::IntegerBasic => "I",
            FileType::AppleSoftBasic => "A",
            FileType::Binary => "B",
            FileType::SType => "S",
            FileType::RelocatableObjectModule => "R",
            FileType::AType => "AT",
            FileType::BType => "BT",
            FileType::Unknown => "U",
        }
    }
}

/// A catalog file entry, 35 bytes on disk.
pub struct FileEntry {
    /// Track index of the start of the file's track/sector list.
    pub track_of_first_track_sector_list_sector: u8,
    /// Sector index of the start of the file's track/sector list.
    pub sector_of_first_track_sector_list_sector: u8,
    /// The file type.
    pub file_type: FileType,
    /// Whether the file is locked.
    pub locked: bool,
    /// The file name.  On disk it is 30 bytes of high-bit ASCII padded with
    /// `0xA0`; an entry built from a plain name holds the plain bytes.
    pub file_name: Vec<u8>,
    /// The file length in number of sectors.
    pub file_length_in_sectors: u16,
}

/// The mathematical model of a catalog file entry.
pub struct SpecFileEntry {
    /// Track index of the start of the file's track/sector list.
    pub track_of_first_track_sector_list_sector: u8,
    /// Sector index of the start of the file's track/sector list.
    pub sector_of_first_track_sector_list_sector: u8,
    /// The file type.
    pub file_type: FileType,
    /// Whether the file is locked.
    pub locked: bool,
    /// The file name bytes.
    pub file_name: Seq<u8>,
    /// The file length in number of sectors.
    pub file_length_in_sectors: u16,
}

impl View for FileEntry {
    type V = SpecFileEntry;

    open spec fn view(&self) -> SpecFileEntry {
        SpecFileEntry {
            track_of_first_track_sector_list_sector: self.track_of_first_track_sector_list_sector,
            sector_of_first_track_sector_list_sector:
                self.sector_of_first_track_sector_list_sector,
            file_type: self.file_type,
            locked: self.locked,
            file_name: self.file_name@,
            file_length_in_sectors: self.file_length_in_sectors,
        }
    }
}

/// The file entry encoded at byte offset `pos`.
pub open spec fn spec_file_entry_at(data: Seq<u8>, pos: int) -> SpecFileEntry {
    SpecFileEntry {
        track_of_first_track_sector_list_sector: data[pos],
        sector_of_first_track_sector_list_sector: data[pos + 1],
        file_type: spec_file_type_from_code(data[pos + 2]),
        locked: data[pos + 2] & 0x80 != 0,
        file_name: data.subrange(pos + 3, pos + 33),
        file_length_in_sectors: spec_le_u16(data[pos + 33], data[pos + 34]),
    }
}

/// The 35 bytes a file entry serializes to: track, sector, the type byte
/// with the locked bit, the name shifted into high-bit ASCII and padded with
/// `0xA0` to 30 bytes, and the length in sectors as a little-endian word.
pub open spec fn spec_file_entry_bytes(e: SpecFileEntry) -> Seq<u8> {
    seq![
        e.track_of_first_track_sector_list_sector,
        e.sector_of_first_track_sector_list_sector,
        (spec_file_type_code(e.file_type) + if e.locked {
            0x80u8
        } else {
            0u8
        }) as u8,
    ] + e.file_name.map_values(|c: u8| (c + 0x80) as u8) + Seq::new(
        (30 - e.file_name.len()) as nat,
        |i: int| 0xA0u8,
    ) + seq![(e.file_length_in_sectors & 0xFF) as u8, (e.file_length_in_sectors >> 8) as u8]
}

/// Whether the on-disk name bytes decode to a string: decoding fails only on
/// a byte that is exactly 0x80, which maps to no ASCII character.
pub open spec fn spec_filename_ok(name: Seq<u8>) -> bool {
    forall|i: int| 0 <= i < name.len() ==> name[i] != 0x80
}

/// The name bytes with the high bit removed from bytes above 0x80.
pub open spec fn spec_filename_decoded(name: Seq<u8>) -> Seq<u8> {
    name.map_values(
        |c: u8|
            if c > 0x80 {
                (c - 0x80) as u8
            } else {
                c
            },
    )
}

/// The sequence without its trailing spaces.
pub open spec fn spec_trim_spaces(s: Seq<u8>) -> Seq<u8>
    decreases s.len(),
{
    if s.len() > 0 && s.last() == 0x20 {
        spec_trim_spaces(s.drop_last())
    } else {
        s
    }
}

/// What a stored file name displays as: the high bit removed, trailing
/// spaces stripped, each byte read as an ASCII character.
pub open spec fn spec_filename_chars(name: Seq<u8>) -> Seq<char> {
    spec_trim_spaces(spec_filename_decoded(name)).map_values(|b: u8| b as char)
}

/// Trailing spaces do not change a trimmed sequence.
proof fn lemma_trim_spaces_pad(s: Seq<u8>, k: nat)
    ensures
        spec_trim_spaces(s + Seq::new(k, |i: int| 0x20u8)) == spec_trim_spaces(s),
    decreases k,
{
    if k == 0 {
        assert(s + Seq::new(0, |i: int| 0x20u8) =~= s);
    } else {
        let padded = s + Seq::new(k, |i: int| 0x20u8);
        assert(padded.last() == 0x20);
        assert(padded.drop_last() =~= s + Seq::new((k - 1) as nat, |i: int| 0x20u8));
        lemma_trim_spaces_pad(s, (k - 1) as nat);
    }
}

impl FileEntry {
    /// Create a new FileEntry with the given data.  The name is stored as
    /// its plain bytes.
    pub fn new(
        track_of_first_track_sector_list_sector: u8,
        sector_of_first_track_sector_list_sector: u8,
        file_type: FileType,
        locked: bool,
        filename: &str,
        file_length_in_sectors: u16,
    ) -> (e: FileEntry)
        ensures
            e@ == (SpecFileEntry {
                track_of_first_track_sector_list_sector,
                sector_of_first_track_sector_list_sector,
                file_type,
                locked,
                file_name: filename.spec_bytes(),
                file_length_in_sectors,
            }),
    {
        FileEntry {
            track_of_first_track_sector_list_sector,
            sector_of_first_track_sector_list_sector,
            file_type,
            locked,
            file_name: filename.as_bytes_vec(),
            file_length_in_sectors,
        }
    }

    /// Return the filename as a String: the high bit is removed from each
    /// byte and trailing spaces are stripped.  Fails when a byte maps to no
    /// ASCII character.
    pub fn filename(&self) -> (r: Result<String, Error>)
        ensures
            r is Ok <==> spec_filename_ok(self.file_name@),
            r matches Ok(s) ==> s@ == spec_filename_chars(self.file_name@),
            r matches Err(e) ==> e.kind matches ErrorKind::Invalid(InvalidErrorKind::Invalid(_)),
    {
        let mut decoded: Vec<u8> = Vec::new();
        let mut i: usize = 0;
        while i < self.file_name.len()
            invariant
                i <= self.file_name@.len(),
                decoded@ == spec_filename_decoded(self.file_name@.take(i as int)),
                forall|k: int| 0 <= k < i ==> self.file_name@[k] != 0x80,
                forall|k: int| 0 <= k < decoded@.len() ==> decoded@[k] < 0x80,
            decreases self.file_name@.len() - i,
        {
            let c = self.file_name[i];
            if c == 0x80 {
                return Err(
                    Error::new(
                        ErrorKind::Invalid(InvalidErrorKind::Invalid("Invalid filename".to_owned())),
                    ),
                );
            }
            if c > 0x80 {
                decoded.push(c - 0x80);
            } else {
                decoded.push(c);
            }
            proof {
                assert(decoded@ =~= spec_filename_decoded(self.file_name@.take(i + 1)));
            }
            i = i + 1;
        }
        proof {
            assert(self.file_name@.take(i as int) =~= self.file_name@);
        }

        // Strip the trailing spaces that pad the name on disk.
        let mut end: usize = decoded.len();
        proof {
            assert(decoded@.take(end as int) =~= decoded@);
        }
        while end > 0 && decoded[end - 1] == 0x20
            invariant
                end <= decoded@.len(),
                spec_trim_spaces(decoded@) == spec_trim_spaces(decoded@.take(end as int)),
            decreases end,
        {
            proof {
                assert(decoded@.take(end as int).drop_last() =~= decoded@.take(end - 1));
            }
            end = end - 1;
        }
        proof {
            assert(spec_trim_spaces(decoded@.take(end as int)) == decoded@.take(end as int));
        }
        decoded.truncate(end);

        let s = ascii_bytes_to_string(&decoded);
        proof {
            assert(s@ =~= spec_filename_chars(self.file_name@));
        }
        Ok(s)
    }

    /// Serialize this entry to its 35 on-disk bytes.  A name shorter than
    /// one byte or longer than 30 is invalid.
    pub fn as_vec(&self) -> (r: Result<Vec<u8>, Error>)
        requires
            1 <= self.file_name@.len() <= 30 ==> forall|i: int|
                0 <= i < self.file_name@.len() ==> self.file_name@[i] < 0x80,
        ensures
            r is Ok <==> 1 <= self.file_name@.len() <= 30,
            r matches Ok(v) ==> v@ == spec_file_entry_bytes(self@),
            r matches Err(e) ==> (e.kind matches ErrorKind::Invalid(InvalidErrorKind::Invalid(m))
                && m@ == "Filename size is invalid: "@ + spec_dec_digits(self.file_name@.len())),
    {
        let num_bytes = self.file_name.len();
        if num_bytes == 0 || num_bytes > 30 {
            let mut m = "Filename size is invalid: ".to_owned();
            let digits = u64_to_dec_string(num_bytes as u64);
            m.append(digits.as_str());
            return Err(Error::new(ErrorKind::Invalid(InvalidErrorKind::Invalid(m))));
        }

        let mut bytes: Vec<u8> = Vec::new();
        bytes.push(self.track_of_first_track_sector_list_sector);
        bytes.push(self.sector_of_first_track_sector_list_sector);

        let code = self.file_type.code();
        let file_type_byte = if self.locked {
            code + 0x80
        } else {
            code
        };
        bytes.push(file_type_byte);

        let mut i: usize = 0;
        while i < self.file_name.len()
            invariant
                1 <= self.file_name@.len() <= 30,
                forall|k: int| 0 <= k < self.file_name@.len() ==> self.file_name@[k] < 0x80,
                i <= self.file_name@.len(),
                bytes@.len() == 3 + i,
                bytes@[0] == self.track_of_first_track_sector_list_sector,
                bytes@[1] == self.sector_of_first_track_sector_list_sector,
                bytes@[2] == (spec_file_type_code(self.file_type) + if self.locked {
                    0x80u8
                } else {
                    0u8
                }) as u8,
                forall|k: int|
                    0 <= k < i ==> #[trigger] bytes@[3 + k] == (self.file_name@[k] + 0x80) as u8,
            decreases self.file_name@.len() - i,
        {
            bytes.push(self.file_name[i] + 0x80);
            i = i + 1;
        }

        let mut pad: usize = self.file_name.len();
        while pad < 30
            invariant
                1 <= self.file_name@.len() <= 30,
                self.file_name@.len() <= pad <= 30,
                bytes@.len() == 3 + pad,
                bytes@[0] == self.track_of_first_track_sector_list_sector,
                bytes@[1] == self.sector_of_first_track_sector_list_sector,
                bytes@[2] == (spec_file_type_code(self.file_type) + if self.locked {
                    0x80u8
                } else {
                    0u8
                }) as u8,
                forall|k: int|
                    0 <= k < self.file_name@.len() ==> #[trigger] bytes@[3 + k] == (
                    self.file_name@[k] + 0x80) as u8,
                forall|k: int|
                    self.file_name@.len() <= k < pad ==> #[trigger] bytes@[3 + k] == 0xA0,
            decreases 30 - pad,
        {
            bytes.push(0xA0);
            pad = pad + 1;
        }

        let mut word = crate::serialize::little_endian_word_to_bytes(self.file_length_in_sectors);
        bytes.append(&mut word);

        proof {
            let sb = spec_file_entry_bytes(self@);
            let name_len = self.file_name@.len() as int;
            assert(sb.len() == 35);
            assert forall|k: int| 0 <= k < 35 implies bytes@[k] == sb[k] by {
                if 3 <= k < 3 + name_len {
                    assert(sb[k] == (self.file_name@[k - 3] + 0x80) as u8);
                    assert(bytes@[3 + (k - 3)] == (self.file_name@[k - 3] + 0x80) as u8);
                } else if 3 + name_len <= k < 33 {
                    assert(sb[k] == 0xA0);
                    assert(bytes@[3 + (k - 3)] == 0xA0);
                }
            }
            assert(bytes@ =~= sb);
        }
        Ok(bytes)
    }
}

/// Return true if this is a valid allocated undeleted file.  Unallocated
/// entries hold 0x00 as their track; deleted entries hold 0xFF.
pub open spec fn spec_valid_file(track: u8) -> bool {
    track != 0x00 && track != 0xFF
}

/// Return true if this is a valid allocated undeleted file.
pub fn valid_file(track_of_first_track_sector_list_sector: u8) -> (r: bool)
    ensures
        r == spec_valid_file(track_of_first_track_sector_list_sector),
{
    (track_of_first_track_sector_list_sector != 0x00) && (
    track_of_first_track_sector_list_sector != 0xFF)
}

/// Parse a file entry, 35 bytes.
pub fn parse_file_entry(data: &[u8], pos: usize) -> (r: Result<(FileEntry, usize), Error>)
    ensures
        r is Ok <==> pos + 35 <= data@.len(),
        r matches Ok((e, new_pos)) ==> e@ == spec_file_entry_at(data@, pos as int) && new_pos == pos
            + 35,
        r matches Err(e) ==> e.kind matches ErrorKind::Message(_),
{
    let short = Err(Error::new(ErrorKind::new("Parsing requires more data")));
    let (track, p) = match read_u8(data, pos) {
        Some(v) => v,
        None => {
            return short;
        },
    };
    let (sector, p) = match read_u8(data, p) {
        Some(v) => v,
        None => {
            return short;
        },
    };
    let (type_byte, p) = match read_u8(data, p) {
        Some(v) => v,
        None => {
            return short;
        },
    };
    let (file_name, p) = match take_bytes(data, p, 30) {
        Some(v) => v,
        None => {
            return short;
        },
    };
    let (file_length_in_sectors, p) = match read_le_u16(data, p) {
        Some(v) => v,
        None => {
            return short;
        },
    };

    // Bit seven of the type byte on disk says whether the file is locked.
    let locked = (type_byte & 0x80) != 0;
    let file_type = FileType::from_code(type_byte);

    let entry = FileEntry {
        track_of_first_track_sector_list_sector: track,
        sector_of_first_track_sector_list_sector: sector,
        file_type,
        locked,
        file_name,
        file_length_in_sectors,
    };
    proof {
        assert(entry@ == spec_file_entry_at(data@, pos as int));
    }
    Ok((entry, p))
}

/// Returns a successful result if this is a valid file entry: its first two
/// bytes are both non-zero.  Otherwise returns an error.
pub fn valid_file_entry(data: &[u8], pos: usize) -> (r: Result<(bool, usize), Error>)
    ensures
        r is Ok <==> pos + 2 <= data@.len() && data@[pos as int] != 0 && data@[pos + 1] != 0,
        r matches Ok((v, new_pos)) ==> v && new_pos == pos + 2,
{
    let short = Err(Error::new(ErrorKind::new("Parsing requires more data")));
    let (res1, p) = match read_u8(data, pos) {
        Some(v) => v,
        None => {
            return short;
        },
    };
    let (res2, p) = match read_u8(data, p) {
        Some(v) => v,
        None => {
            return short;
        },
    };
    if res1 != 0 && res2 != 0 {
        Ok((true, p))
    } else {
        Err(Error::new(ErrorKind::Invalid(InvalidErrorKind::Invalid("Invalid file entry".to_owned()))))
    }
}

/// Pairs of track and sector numbers used in track/sector lists.
#[derive(Clone, Copy, Debug, PartialEq, Eq, Structural)]
pub struct TrackSectorPair {
    /// The track number.
    pub track_number: u8,
    /// The sector number.
    pub sector_number: u8,
}

impl TrackSectorPair {
    /// Serialize this pair to its two on-disk bytes.
    pub fn as_vec(&self) -> (r: Result<Vec<u8>, Error>)
        ensures
            r matches Ok(v) && v@ == seq![self.track_number, self.sector_number],
    {
        let mut bytes: Vec<u8> = Vec::new();
        bytes.push(self.track_number);
        bytes.push(self.sector_number);
        proof {
            assert(bytes@ =~= seq![self.track_number, self.sector_number]);
        }
        Ok(bytes)
    }
}

/// Parse a track/sector pair, two bytes.
pub fn parse_track_sector_pair(data: &[u8], pos: usize) -> (r: Result<(TrackSectorPair, usize), Error>)
    ensures
        r is Ok <==> pos + 2 <= data@.len(),
        r matches Ok((p, new_pos)) ==> p == (TrackSectorPair {
            track_number: data@[pos as int],
            sector_number: data@[pos + 1],
        }) && new_pos == pos + 2,
        r matches Err(e) ==> e.kind matches ErrorKind::Message(_),
{
    let short = Err(Error::new(ErrorKind::new("Parsing requires more data")));
    let (track_number, p) = match read_u8(data, pos) {
        Some(v) => v,
        None => {
            return short;
        },
    };
    let (sector_number, p) = match read_u8(data, p) {
        Some(v) => v,
        None => {
            return short;
        },
    };
    Ok((TrackSectorPair { track_number, sector_number }, p))
}

/// The bytes a sequence of track/sector pairs serializes to.
pub open spec fn spec_pairs_bytes(pairs: Seq<TrackSectorPair>) -> Seq<u8>
    decreases pairs.len(),
{
    if pairs.len() == 0 {
        Seq::empty()
    } else {
        spec_pairs_bytes(pairs.drop_last()) + seq![
            pairs.last().track_number,
            pairs.last().sector_number,
        ]
    }
}

/// Serialize a vector of track/sector pairs, two bytes each, in order.
pub fn track_sector_pairs_as_vec(pairs: &Vec<TrackSectorPair>) -> (r: Result<Vec<u8>, Error>)
    ensures
        r matches Ok(v) && v@ == spec_pairs_bytes(pairs@),
{
    let mut bytes: Vec<u8> = Vec::new();
    let mut i: usize = 0;
    while i < pairs.len()
        invariant
            i <= pairs@.len(),
            bytes@ == spec_pairs_bytes(pairs@.take(i as int)),
        decreases pairs@.len() - i,
    {
        bytes.push(pairs[i].track_number);
        bytes.push(pairs[i].sector_number);
        proof {
            assert(pairs@.take(i + 1).drop_last() =~= pairs@.take(i as int));
            assert(pairs@.take(i + 1).last() == pairs@[i as int]);
            assert(bytes@ =~= spec_pairs_bytes(pairs@.take(i + 1)));
        }
        i = i + 1;
    }
    proof {
        assert(pairs@.take(pairs@.len() as int) =~= pairs@);
    }
    Ok(bytes)
}

/// A track/sector list.  Each file has an associated track/sector list; a
/// long file chains several.
pub struct TrackSectorList {
    /// Reserved byte.
    pub reserved: u8,
    /// The track number of the next track/sector list, or None if there is
    /// none.
    pub track_number_of_next_sector: Option<u8>,
    /// The sector number of the next track/sector list, or None if there is
    /// none.
    pub sector_number_of_next_sector: Option<u8>,
    /// Two reserved bytes.
    pub reserved_2: Vec<u8>,
    /// Sector offset in the file of the first sector described by this list,
    /// two bytes.
    pub sector_offset_in_file: Vec<u8>,
    /// Five reserved bytes.
    pub reserved_3: Vec<u8>,
    /// The track/sector pairs of this list.
    pub track_sector_pairs: Vec<TrackSectorPair>,
}

/// The mathematical model of a track/sector list.
pub struct SpecTrackSectorList {
    /// Reserved byte.
    pub reserved: u8,
    /// The track number of the next track/sector list, or None.
    pub track_number_of_next_sector: Option<u8>,
    /// The sector number of the next track/sector list, or None.
    pub sector_number_of_next_sector: Option<u8>,
    /// Two reserved bytes.
    pub reserved_2: Seq<u8>,
    /// Sector offset in the file, two bytes.
    pub sector_offset_in_file: Seq<u8>,
    /// Five reserved bytes.
    pub reserved_3: Seq<u8>,
    /// The track/sector pairs of this list.
    pub track_sector_pairs: Seq<TrackSectorPair>,
}

impl View for TrackSectorList {
    type V = SpecTrackSectorList;

    open spec fn view(&self) -> SpecTrackSectorList {
        SpecTrackSectorList {
            reserved: self.reserved,
            track_number_of_next_sector: self.track_number_of_next_sector,
            sector_number_of_next_sector: self.sector_number_of_next_sector,
            reserved_2: self.reserved_2@,
            sector_offset_in_file: self.sector_offset_in_file@,
            reserved_3: self.reserved_3@,
            track_sector_pairs: self.track_sector_pairs@,
        }
    }
}

/// How many track/sector pairs a list starting at `pos` holds: pairs are
/// read until one with track zero, and at most `fuel` of them.
pub open spec fn spec_tsl_pair_count(data: Seq<u8>, pos: int, fuel: nat) -> nat
    decreases fuel,
{
    if fuel == 0 {
        0
    } else if data[pos] == 0 {
        0
    } else {
        1 + spec_tsl_pair_count(data, pos + 2, (fuel - 1) as nat)
    }
}

/// The pair count never exceeds the fuel.
pub proof fn lemma_tsl_pair_count_le(data: Seq<u8>, pos: int, fuel: nat)
    ensures
        spec_tsl_pair_count(data, pos, fuel) <= fuel,
    decreases fuel,
{
    if fuel > 0 && data[pos] != 0 {
        lemma_tsl_pair_count_le(data, pos + 2, (fuel - 1) as nat);
    }
}

/// The track/sector list encoded at byte offset `pos`: a 12-byte header
/// followed by up to 121 pairs, ended by a pair with track zero.
pub open spec fn spec_tsl_at(data: Seq<u8>, pos: int) -> SpecTrackSectorList {
    let count = spec_tsl_pair_count(data, pos + 12, 121);
    SpecTrackSectorList {
        reserved: data[pos],
        track_number_of_next_sector: if data[pos + 1] != 0 {
            Some(data[pos + 1])
        } else {
            None
        },
        sector_number_of_next_sector: if data[pos + 2] != 0 {
            Some(data[pos + 2])
        } else {
            None
        },
        reserved_2: data.subrange(pos + 3, pos + 5),
        sector_offset_in_file: data.subrange(pos + 5, pos + 7),
        reserved_3: data.subrange(pos + 7, pos + 12),
        track_sector_pairs: Seq::new(
            count,
            |k: int|
                TrackSectorPair {
                    track_number: data[pos + 12 + 2 * k],
                    sector_number: data[pos + 13 + 2 * k],
                },
        ),
    }
}

/// Where the track/sector list starting at `pos` ends: past its header, its
/// pairs and the pair that ended the walk.
pub open spec fn spec_tsl_end(data: Seq<u8>, pos: int) -> int {
    pos + 12 + 2 * (spec_tsl_pair_count(data, pos + 12, 121) + 1)
}

/// Whether a track/sector list can be parsed at `pos`.
pub open spec fn spec_tsl_ok(data: Seq<u8>, pos: int) -> bool {
    spec_tsl_end(data, pos) <= data.len()
}

/// Parse a track/sector list: a 12-byte header, then track/sector pairs up
/// to the first pair with track zero, capped at 121 pairs per list.
pub fn parse_track_sector_list(data: &[u8], pos: usize) -> (r: Result<(TrackSectorList, usize), Error>)
    ensures
        r is Ok <==> spec_tsl_ok(data@, pos as int),
        r matches Ok((tsl, new_pos)) ==> tsl@ == spec_tsl_at(data@, pos as int) && new_pos
            == spec_tsl_end(data@, pos as int),
        r matches Err(e) ==> e.kind matches ErrorKind::Message(_),
{
    let short = Err(Error::new(ErrorKind::new("Parsing requires more data")));
    let (reserved, p) = match read_u8(data, pos) {
        Some(v) => v,
        None => {
            proof {
                lemma_tsl_pair_count_le(data@, pos + 12, 121);
            }
            return short;
        },
    };
    let (next_track_byte, p) = match read_u8(data, p) {
        Some(v) => v,
        None => {
            return short;
        },
    };
    let (next_sector_byte, p) = match read_u8(data, p) {
        Some(v) => v,
        None => {
            return short;
        },
    };
    let (reserved_2, p) = match take_bytes(data, p, 2) {
        Some(v) => v,
        None => {
            return short;
        },
    };
    let (sector_offset_in_file, p) = match take_bytes(data, p, 2) {
        Some(v) => v,
        None => {
            return short;
        },
    };
    let (reserved_3, p) = match take_bytes(data, p, 5) {
        Some(v) => v,
        None => {
            return short;
        },
    };

    let track_number_of_next_sector = if next_track_byte != 0 {
        Some(next_track_byte)
    } else {
        None
    };
    let sector_number_of_next_sector = if next_sector_byte != 0 {
        Some(next_sector_byte)
    } else {
        None
    };

    let mut track_sector_pairs: Vec<TrackSectorPair> = Vec::new();
    let mut cnt: usize = 0;
    let mut p: usize = p;
    loop
        invariant_except_break
            pos + 12 <= data@.len(),
            cnt == track_sector_pairs@.len(),
            cnt <= 121,
            p == pos + 12 + 2 * cnt,
            spec_tsl_pair_count(data@, pos + 12, 121) == cnt + spec_tsl_pair_count(
                data@,
                p as int,
                (121 - cnt) as nat,
            ),
            forall|k: int|
                0 <= k < cnt ==> track_sector_pairs@[k] == (TrackSectorPair {
                    track_number: data@[pos + 12 + 2 * k],
                    sector_number: data@[pos + 13 + 2 * k],
                }),
        ensures
            cnt == track_sector_pairs@.len(),
            cnt == spec_tsl_pair_count(data@, pos + 12, 121),
            p == pos + 12 + 2 * (cnt + 1),
            p <= data@.len(),
            forall|k: int|
                0 <= k < cnt ==> track_sector_pairs@[k] == (TrackSectorPair {
                    track_number: data@[pos + 12 + 2 * k],
                    sector_number: data@[pos + 13 + 2 * k],
                }),
        decreases 121 - cnt,
    {
        let pair = match parse_track_sector_pair(data, p) {
            Ok((pair, np)) => {
                p = np;
                pair
            },
            Err(e) => {
                proof {
                    assert(spec_tsl_pair_count(data@, pos + 12, 121) >= cnt);
                    assert(spec_tsl_end(data@, pos as int) > data@.len());
                }
                return Err(e);
            },
        };
        if pair.track_number != 0 && cnt < 121 {
            track_sector_pairs.push(pair);
            cnt = cnt + 1;
        } else {
            break;
        }
    }

    let tsl = TrackSectorList {
        reserved,
        track_number_of_next_sector,
        sector_number_of_next_sector,
        reserved_2,
        sector_offset_in_file,
        reserved_3,
        track_sector_pairs,
    };
    proof {
        assert(tsl@.track_sector_pairs =~= spec_tsl_at(data@, pos as int).track_sector_pairs);
        assert(tsl@ == spec_tsl_at(data@, pos as int));
    }
    Ok((tsl, p))
}

/// The bytes a track/sector list serializes to: the header fields with an
/// absent next pointer written as zero, then the pairs.
pub open spec fn spec_tsl_bytes(t: SpecTrackSectorList) -> Seq<u8> {
    seq![
        t.reserved,
        match t.track_number_of_next_sector {
            Some(x) => x,
            None => 0u8,
        },
        match t.sector_number_of_next_sector {
            Some(x) => x,
            None => 0u8,
        },
    ] + t.reserved_2 + t.sector_offset_in_file + t.reserved_3 + spec_pairs_bytes(
        t.track_sector_pairs,
    )
}

impl TrackSectorList {
    /// Serialize this track/sector list to bytes.
    pub fn as_vec(&self) -> (r: Result<Vec<u8>, Error>)
        ensures
            r matches Ok(v) && v@ == spec_tsl_bytes(self@),
    {
        let mut bytes: Vec<u8> = Vec::new();
        bytes.push(self.reserved);
        match self.track_number_of_next_sector {
            Some(track_number) => {
                bytes.push(track_number);
            },
            None => {
                bytes.push(0);
            },
        }
        match self.sector_number_of_next_sector {
            Some(sector_number) => {
                bytes.push(sector_number);
            },
            None => {
                bytes.push(0);
            },
        }
        let mut reserved_2 = self.reserved_2.clone();
        bytes.append(&mut reserved_2);
        let mut sector_offset = self.sector_offset_in_file.clone();
        bytes.append(&mut sector_offset);
        let mut reserved_3 = self.reserved_3.clone();
        bytes.append(&mut reserved_3);
        let mut pair_bytes = match track_sector_pairs_as_vec(&self.track_sector_pairs) {
            Ok(v) => v,
            Err(e) => {
                return Err(e);
            },
        };
        bytes.append(&mut pair_bytes);
        proof {
            assert(bytes@ =~= spec_tsl_bytes(self@));
        }
        Ok(bytes)
    }
}

/// The disk catalog: one catalog sector.
pub struct Catalog {
    /// One reserved byte.
    pub reserved: u8,
    /// The track number of the next catalog sector; zero ends the catalog
    /// chain.
    pub track_number_of_next_sector: u8,
    /// The sector number of the next catalog sector; zero ends the catalog
    /// chain.
    pub sector_number_of_next_sector: u8,
    /// Eight reserved bytes.
    pub reserved_2: Vec<u8>,
    /// Up to seven file descriptive entries.
    pub file_entries: Vec<FileEntry>,
}

/// The mathematical model of a catalog sector.
pub struct SpecCatalog {
    /// One reserved byte.
    pub reserved: u8,
    /// The track number of the next catalog sector.
    pub track_number_of_next_sector: u8,
    /// The sector number of the next catalog sector.
    pub sector_number_of_next_sector: u8,
    /// Eight reserved bytes.
    pub reserved_2: Seq<u8>,
    /// The valid file entries of this sector.
    pub file_entries: Seq<SpecFileEntry>,
}

impl View for Catalog {
    type V = SpecCatalog;

    open spec fn view(&self) -> SpecCatalog {
        SpecCatalog {
            reserved: self.reserved,
            track_number_of_next_sector: self.track_number_of_next_sector,
            sector_number_of_next_sector: self.sector_number_of_next_sector,
            reserved_2: self.reserved_2@,
            file_entries: self.file_entries@.map_values(|e: FileEntry| e@),
        }
    }
}

/// The valid entries among the first `k` of the seven slots of a catalog
/// sector at `pos`: slots whose first byte is 0x00 (never allocated) or 0xFF
/// (deleted) are left out.
pub open spec fn spec_catalog_entries_upto(data: Seq<u8>, pos: int, k: int) -> Seq<SpecFileEntry>
    decreases k,
{
    if k <= 0 {
        Seq::empty()
    } else {
        spec_catalog_entries_upto(data, pos, k - 1) + if spec_valid_file(
            data[pos + 11 + 35 * (k - 1)],
        ) {
            seq![spec_file_entry_at(data, pos + 11 + 35 * (k - 1))]
        } else {
            Seq::empty()
        }
    }
}

/// Parse an Apple DOS disk catalog sector: an 11-byte header and seven file
/// entry slots, keeping the valid entries.
pub fn parse_catalog(data: &[u8], pos: usize) -> (r: Result<(Catalog, usize), Error>)
    ensures
        r is Ok <==> pos + 256 <= data@.len(),
        r matches Ok((c, new_pos)) ==> c@ == (SpecCatalog {
            reserved: data@[pos as int],
            track_number_of_next_sector: data@[pos + 1],
            sector_number_of_next_sector: data@[pos + 2],
            reserved_2: data@.subrange(pos + 3, pos + 11),
            file_entries: spec_catalog_entries_upto(data@, pos as int, 7),
        }) && new_pos == pos + 256,
        r matches Err(e) ==> e.kind matches ErrorKind::Message(_),
{
    let short = Err(Error::new(ErrorKind::new("Parsing requires more data")));
    if pos > data.len() || data.len() - pos < 256 {
        return short;
    }
    let (reserved, p) = match read_u8(data, pos) {
        Some(v) => v,
        None => {
            return short;
        },
    };
    let (track_number_of_next_sector, p) = match read_u8(data, p) {
        Some(v) => v,
        None => {
            return short;
        },
    };
    let (sector_number_of_next_sector, p) = match read_u8(data, p) {
        Some(v) => v,
        None => {
            return short;
        },
    };
    let (reserved_2, p) = match take_bytes(data, p, 8) {
        Some(v) => v,
        None => {
            return short;
        },
    };

    let mut file_entries: Vec<FileEntry> = Vec::new();
    let mut k: usize = 0;
    let mut p: usize = p;
    while k < 7
        invariant
            pos + 256 <= data@.len(),
            k <= 7,
            p == pos + 11 + 35 * k,
            file_entries@.map_values(|e: FileEntry| e@) == spec_catalog_entries_upto(
                data@,
                pos as int,
                k as int,
            ),
        decreases 7 - k,
    {
        let (entry, np) = match parse_file_entry(data, p) {
            Ok(v) => v,
            Err(e) => {
                return Err(e);
            },
        };
        let keep = valid_file(entry.track_of_first_track_sector_list_sector);
        if keep {
            file_entries.push(entry);
        }
        proof {
            assert(file_entries@.map_values(|e: FileEntry| e@) =~= spec_catalog_entries_upto(
                data@,
                pos as int,
                k + 1,
            ));
        }
        p = np;
        k = k + 1;
    }

    let catalog = Catalog {
        reserved,
        track_number_of_next_sector,
        sector_number_of_next_sector,
        reserved_2,
        file_entries,
    };
    Ok((catalog, p))
}

/// The bytes a sequence of file entries serializes to, back to back.
pub open spec fn spec_entries_bytes(entries: Seq<SpecFileEntry>) -> Seq<u8>
    decreases entries.len(),
{
    if entries.len() == 0 {
        Seq::empty()
    } else {
        spec_entries_bytes(entries.drop_last()) + spec_file_entry_bytes(entries.last())
    }
}

/// The 256 bytes a catalog sector serializes to: the header, the entries,
/// and zero padding for the unused slots.
pub open spec fn spec_catalog_bytes(c: SpecCatalog) -> Seq<u8> {
    seq![c.reserved, c.track_number_of_next_sector, c.sector_number_of_next_sector] + c.reserved_2
        + spec_entries_bytes(c.file_entries) + Seq::new(
        ((7 - c.file_entries.len()) * 35) as nat,
        |i: int| 0u8,
    )
}

impl Catalog {
    /// Serialize this catalog sector: the header, each entry's 35 bytes, and
    /// zero padding for the unused slots.
    pub fn as_vec(&self) -> (r: Result<Vec<u8>, Error>)
        requires
            self.file_entries@.len() <= 7,
            forall|k: int|
                0 <= k < self.file_entries@.len() ==> 1 <= (
                #[trigger] self.file_entries@[k])@.file_name.len() <= 30 && forall|i: int|
                    0 <= i < self.file_entries@[k]@.file_name.len()
                        ==> self.file_entries@[k]@.file_name[i] < 0x80,
        ensures
            r matches Ok(v) && v@ == spec_catalog_bytes(self@),
    {
        let mut v: Vec<u8> = Vec::new();
        v.push(self.reserved);
        v.push(self.track_number_of_next_sector);
        v.push(self.sector_number_of_next_sector);
        let mut reserved_2 = self.reserved_2.clone();
        v.append(&mut reserved_2);

        let ghost spec_entries = self@.file_entries;
        let mut k: usize = 0;
        while k < self.file_entries.len()
            invariant
                self.file_entries@.len() <= 7,
                forall|j: int|
                    0 <= j < self.file_entries@.len() ==> 1 <= (
                    #[trigger] self.file_entries@[j])@.file_name.len() <= 30 && forall|i: int|
                        0 <= i < self.file_entries@[j]@.file_name.len()
                            ==> self.file_entries@[j]@.file_name[i] < 0x80,
                spec_entries == self@.file_entries,
                k <= self.file_entries@.len(),
                v@ == seq![
                    self.reserved,
                    self.track_number_of_next_sector,
                    self.sector_number_of_next_sector,
                ] + self.reserved_2@ + spec_entries_bytes(spec_entries.take(k as int)),
            decreases self.file_entries@.len() - k,
        {
            let mut entry_bytes = match self.file_entries[k].as_vec() {
                Ok(b) => b,
                Err(e) => {
                    return Err(e);
                },
            };
            v.append(&mut entry_bytes);
            proof {
                assert(spec_entries.take(k + 1).drop_last() =~= spec_entries.take(k as int));
                assert(spec_entries.take(k + 1).last() == spec_entries[k as int]);
                assert(self.file_entries@.map_values(|e: FileEntry| e@)[k as int]
                    == self.file_entries@[k as int]@);
            }
            k = k + 1;
        }

        proof {
            assert(spec_entries.take(spec_entries.len() as int) =~= spec_entries);
            assert(v@ =~= seq![
                self.reserved,
                self.track_number_of_next_sector,
                self.sector_number_of_next_sector,
            ] + self.reserved_2@ + spec_entries_bytes(spec_entries) + Seq::new(
                0,
                |i: int| 0u8,
            ));
        }
        let mut pad: usize = self.file_entries.len();
        while pad < 7
            invariant
                self.file_entries@.len() <= pad <= 7,
                spec_entries == self@.file_entries,
                spec_entries.len() == self.file_entries@.len(),
                v@ == seq![
                    self.reserved,
                    self.track_number_of_next_sector,
                    self.sector_number_of_next_sector,
                ] + self.reserved_2@ + spec_entries_bytes(spec_entries) + Seq::new(
                    ((pad - self.file_entries@.len()) * 35) as nat,
                    |i: int| 0u8,
                ),
            decreases 7 - pad,
        {
            let mut z: usize = 0;
            while z < 35
                invariant
                    self.file_entries@.len() <= pad <= 6,
                    spec_entries == self@.file_entries,
                    spec_entries.len() == self.file_entries@.len(),
                    z <= 35,
                    v@ == seq![
                        self.reserved,
                        self.track_number_of_next_sector,
                        self.sector_number_of_next_sector,
                    ] + self.reserved_2@ + spec_entries_bytes(spec_entries) + Seq::new(
                        ((pad - self.file_entries@.len()) * 35 + z) as nat,
                        |i: int| 0u8,
                    ),
                decreases 35 - z,
            {
                v.push(0);
                proof {
                    assert(v@ =~= seq![
                        self.reserved,
                        self.track_number_of_next_sector,
                        self.sector_number_of_next_sector,
                    ] + self.reserved_2@ + spec_entries_bytes(spec_entries) + Seq::new(
                        ((pad - self.file_entries@.len()) * 35 + z + 1) as nat,
                        |i: int| 0u8,
                    ));
                }
                z = z + 1;
            }
            pad = pad + 1;
        }
        proof {
            assert(v@ =~= spec_catalog_bytes(self@));
        }
        Ok(v)
    }
}

/// The nested byte view of a disk split into tracks and sectors.
pub open spec fn spec_tracks(tracks: Seq<Vec<Vec<u8>>>) -> Seq<Seq<Seq<u8>>> {
    tracks.map_values(|t: Vec<Vec<u8>>| t@.map_values(|s: Vec<u8>| s@))
}

/// Whether `(t, s)` addresses a sector that can hold a catalog sector: the
/// indexes are in range and the sector holds at least 256 bytes.
pub open spec fn spec_catalog_pos_ok(tv: Seq<Seq<Seq<u8>>>, t: int, s: int) -> bool {
    &&& 0 <= t < tv.len()
    &&& 0 <= s < tv[t].len()
    &&& tv[t][s].len() >= 256
}

/// Whether the catalog chain starting at `(t, s)` can be walked to its end
/// within `fuel` sectors.  The chain ends at a sector whose next track or
/// next sector is zero.
pub open spec fn spec_catalogs_wf(tv: Seq<Seq<Seq<u8>>>, t: int, s: int, fuel: nat) -> bool
    decreases fuel,
{
    &&& fuel > 0
    &&& spec_catalog_pos_ok(tv, t, s)
    &&& {
        let sec = tv[t][s];
        sec[1] == 0 || sec[2] == 0 || spec_catalogs_wf(
            tv,
            sec[1] as int,
            sec[2] as int,
            (fuel - 1) as nat,
        )
    }
}

/// The file entries collected along the catalog chain starting at `(t, s)`,
/// in traversal order.
pub open spec fn spec_catalogs_entries(tv: Seq<Seq<Seq<u8>>>, t: int, s: int, fuel: nat) -> Seq<
    SpecFileEntry,
>
    decreases fuel,
{
    if fuel == 0 || !spec_catalog_pos_ok(tv, t, s) {
        Seq::empty()
    } else {
        let sec = tv[t][s];
        let mine = spec_catalog_entries_upto(sec, 0, 7);
        if sec[1] == 0 || sec[2] == 0 {
            mine
        } else {
            mine + spec_catalogs_entries(tv, sec[1] as int, sec[2] as int, (fuel - 1) as nat)
        }
    }
}

/// A FullCatalog combines the file entries of all the catalog sectors of a
/// chain into a single catalog without the per-sector metadata.
pub struct FullCatalog {
    /// The file descriptive entries of the whole chain.
    pub file_entries: Vec<FileEntry>,
}

/// Parse a series of catalog sectors and collect the directory of files.
///
/// The walk starts at the given track and sector and follows each sector's
/// next-track/next-sector pointer until either is zero.  The chain is
/// intrinsically bounded by the disk geometry; to guard against cycles the
/// walk is capped at 35 sectors, and a longer chain is invalid.
pub fn parse_catalogs(tracks: &Vec<Vec<Vec<u8>>>, catalog_track: u8, catalog_sector: u8) -> (r:
    Result<FullCatalog, Error>)
    ensures
        r is Ok <==> spec_catalogs_wf(
            spec_tracks(tracks@),
            catalog_track as int,
            catalog_sector as int,
            35,
        ),
        r matches Ok(fc) ==> fc.file_entries@.map_values(|e: FileEntry| e@)
            == spec_catalogs_entries(
            spec_tracks(tracks@),
            catalog_track as int,
            catalog_sector as int,
            35,
        ),
{
    let ghost tv = spec_tracks(tracks@);
    let mut t: u8 = catalog_track;
    let mut s: u8 = catalog_sector;
    let mut fuel: u8 = 35;
    let mut file_entries: Vec<FileEntry> = Vec::new();

    loop
        invariant_except_break
            tv == spec_tracks(tracks@),
            fuel <= 35,
            spec_catalogs_wf(tv, catalog_track as int, catalog_sector as int, 35)
                <==> spec_catalogs_wf(tv, t as int, s as int, fuel as nat),
            spec_catalogs_wf(tv, catalog_track as int, catalog_sector as int, 35)
                ==> file_entries@.map_values(|e: FileEntry| e@) + spec_catalogs_entries(
                tv,
                t as int,
                s as int,
                fuel as nat,
            ) == spec_catalogs_entries(
                tv,
                catalog_track as int,
                catalog_sector as int,
                35,
            ),
        ensures
            spec_catalogs_wf(tv, catalog_track as int, catalog_sector as int, 35),
            file_entries@.map_values(|e: FileEntry| e@) == spec_catalogs_entries(
                tv,
                catalog_track as int,
                catalog_sector as int,
                35,
            ),
        decreases fuel,
    {
        if fuel == 0 {
            return Err(
                Error::new(
                    ErrorKind::Invalid(InvalidErrorKind::Invalid("Catalog chain is too long".to_owned())),
                ),
            );
        }
        if t as usize >= tracks.len() {
            return Err(
                Error::new(
                    ErrorKind::Invalid(
                        InvalidErrorKind::Invalid("Catalog sector out of range".to_owned()),
                    ),
                ),
            );
        }
        let track_ref = &tracks[t as usize];
        if s as usize >= track_ref.len() {
            return Err(
                Error::new(
                    ErrorKind::Invalid(
                        InvalidErrorKind::Invalid("Catalog sector out of range".to_owned()),
                    ),
                ),
            );
        }
        let sector = &track_ref[s as usize];
        proof {
            assert(tv[t as int][s as int] == sector@);
        }
        let mut catalog = match parse_catalog(sector.as_slice(), 0) {
            Ok((c, _)) => c,
            Err(e) => {
                return Err(e);
            },
        };
        let ghost old_entries = file_entries@;
        let ghost cat_entries = catalog@.file_entries;
        file_entries.append(&mut catalog.file_entries);
        proof {
            assert(file_entries@.map_values(|e: FileEntry| e@) =~= old_entries.map_values(
                |e: FileEntry| e@,
            ) + cat_entries);
        }
        if catalog.track_number_of_next_sector == 0 || catalog.sector_number_of_next_sector == 0 {
            break;
        }
        t = catalog.track_number_of_next_sector;
        s = catalog.sector_number_of_next_sector;
        fuel = fuel - 1;
    }

    Ok(FullCatalog { file_entries })
}

impl Catalog {
    /// Get the file data for a file in the catalog.  The lookup must hit;
    /// the data itself is not assembled here, so the result is empty.
    pub fn get_file(&self, filename: &str) -> (r: Vec<u8>)
        requires
            exists|k: int|
                0 <= k < self.file_entries@.len() && spec_filename_ok(
                    (#[trigger] self.file_entries@[k])@.file_name,
                ) && spec_filename_chars(self.file_entries@[k]@.file_name) == filename@,
        ensures
            r@ == Seq::<u8>::empty(),
    {
        let needle = filename.to_owned();
        let mut i: usize = 0;
        while i < self.file_entries.len()
            invariant
                exists|k: int|
                    0 <= k < self.file_entries@.len() && spec_filename_ok(
                        (#[trigger] self.file_entries@[k])@.file_name,
                    ) && spec_filename_chars(self.file_entries@[k]@.file_name) == needle@,
                needle@ == filename@,
                i <= self.file_entries@.len(),
                forall|k: int|
                    0 <= k < i ==> !(spec_filename_ok((#[trigger] self.file_entries@[k])@.file_name)
                        && spec_filename_chars(self.file_entries@[k]@.file_name) == needle@),
            decreases self.file_entries@.len() - i,
        {
            match self.file_entries[i].filename() {
                Ok(name) => {
                    if name == needle {
                        return Vec::new();
                    }
                },
                Err(_) => {},
            }
            i = i + 1;
        }
        proof {
            assert(false);
        }
        Vec::new()
    }
}

/// Whether `(t, s)` addresses a sector holding a parseable track/sector
/// list.
pub open spec fn spec_tsl_pos_ok(tv: Seq<Seq<Seq<u8>>>, t: int, s: int) -> bool {
    &&& 0 <= t < tv.len()
    &&& 0 <= s < tv[t].len()
    &&& spec_tsl_ok(tv[t][s], 0)
}

/// Whether the track/sector-list chain starting at `(t, s)` can be walked to
/// its end within `fuel` lists.  The chain continues only while a list names
/// both a next track and a next sector.
pub open spec fn spec_tsl_chain_ok(tv: Seq<Seq<Seq<u8>>>, t: int, s: int, fuel: nat) -> bool
    decreases fuel,
{
    &&& fuel > 0
    &&& spec_tsl_pos_ok(tv, t, s)
    &&& {
        let tsl = spec_tsl_at(tv[t][s], 0);
        match (tsl.track_number_of_next_sector, tsl.sector_number_of_next_sector) {
            (Some(nt), Some(ns)) => spec_tsl_chain_ok(tv, nt as int, ns as int, (fuel - 1) as nat),
            _ => true,
        }
    }
}

/// The track/sector lists collected along the chain starting at `(t, s)`.
pub open spec fn spec_chain_tsls(tv: Seq<Seq<Seq<u8>>>, t: int, s: int, fuel: nat) -> Seq<
    SpecTrackSectorList,
>
    decreases fuel,
{
    if fuel == 0 || !spec_tsl_pos_ok(tv, t, s) {
        Seq::empty()
    } else {
        let tsl = spec_tsl_at(tv[t][s], 0);
        match (tsl.track_number_of_next_sector, tsl.sector_number_of_next_sector) {
            (Some(nt), Some(ns)) => seq![tsl] + spec_chain_tsls(
                tv,
                nt as int,
                ns as int,
                (fuel - 1) as nat,
            ),
            _ => seq![tsl],
        }
    }
}

impl FileEntry {
    /// Build the track/sector lists of this file's chain.
    ///
    /// The walk starts at this entry's first track/sector-list position and
    /// follows each list's next pointers while a list names both a next
    /// track and a next sector.  A 140K disk holds 560 sectors, so a chain
    /// longer than that has a cycle and is invalid.
    pub fn build_file(&self, tracks: &Vec<Vec<Vec<u8>>>) -> (r: Result<Vec<TrackSectorList>, Error>)
        ensures
            r is Ok <==> spec_tsl_chain_ok(
                spec_tracks(tracks@),
                self.track_of_first_track_sector_list_sector as int,
                self.sector_of_first_track_sector_list_sector as int,
                560,
            ),
            r matches Ok(v) ==> v@.map_values(|x: TrackSectorList| x@) == spec_chain_tsls(
                spec_tracks(tracks@),
                self.track_of_first_track_sector_list_sector as int,
                self.sector_of_first_track_sector_list_sector as int,
                560,
            ),
    {
        let ghost tv = spec_tracks(tracks@);
        let ghost t0 = self.track_of_first_track_sector_list_sector as int;
        let ghost s0 = self.sector_of_first_track_sector_list_sector as int;
        let mut t: u8 = self.track_of_first_track_sector_list_sector;
        let mut s: u8 = self.sector_of_first_track_sector_list_sector;
        let mut fuel: u16 = 560;
        let mut track_sector_lists: Vec<TrackSectorList> = Vec::new();

        loop
            invariant_except_break
                tv == spec_tracks(tracks@),
                t0 == self.track_of_first_track_sector_list_sector as int,
                s0 == self.sector_of_first_track_sector_list_sector as int,
                fuel <= 560,
                spec_tsl_chain_ok(tv, t0, s0, 560) <==> spec_tsl_chain_ok(
                    tv,
                    t as int,
                    s as int,
                    fuel as nat,
                ),
                spec_tsl_chain_ok(tv, t0, s0, 560) ==> track_sector_lists@.map_values(
                    |x: TrackSectorList| x@,
                ) + spec_chain_tsls(tv, t as int, s as int, fuel as nat) == spec_chain_tsls(
                    tv,
                    t0,
                    s0,
                    560,
                ),
            ensures
                spec_tsl_chain_ok(tv, t0, s0, 560),
                track_sector_lists@.map_values(|x: TrackSectorList| x@) == spec_chain_tsls(
                    tv,
                    t0,
                    s0,
                    560,
                ),
            decreases fuel,
        {
            if fuel == 0 {
                return Err(
                    Error::new(
                        ErrorKind::Invalid(
                            InvalidErrorKind::Invalid("Track/sector list chain is too long".to_owned()),
                        ),
                    ),
                );
            }
            if t as usize >= tracks.len() {
                return Err(
                    Error::new(
                        ErrorKind::Invalid(
                            InvalidErrorKind::Invalid("Track/sector list out of range".to_owned()),
                        ),
                    ),
                );
            }
            let track_ref = &tracks[t as usize];
            if s as usize >= track_ref.len() {
                return Err(
                    Error::new(
                        ErrorKind::Invalid(
                            InvalidErrorKind::Invalid("Track/sector list out of range".to_owned()),
                        ),
                    ),
                );
            }
            let sector = &track_ref[s as usize];
            proof {
                assert(tv[t as int][s as int] == sector@);
            }
            let tsl = match parse_track_sector_list(sector.as_slice(), 0) {
                Ok((tsl, _)) => tsl,
                Err(e) => {
                    return Err(e);
                },
            };
            let next_track = tsl.track_number_of_next_sector;
            let next_sector = tsl.sector_number_of_next_sector;
            let ghost old_lists = track_sector_lists@;
            track_sector_lists.push(tsl);
            proof {
                assert(track_sector_lists@.map_values(|x: TrackSectorList| x@)
                    =~= old_lists.map_values(|x: TrackSectorList| x@) + seq![
                    spec_tsl_at(tv[t as int][s as int], 0),
                ]);
            }
            match (next_track, next_sector) {
                (Some(nt), Some(ns)) => {
                    t = nt;
                    s = ns;
                    fuel = fuel - 1;
                },
                _ => {
                    break;
                },
            }
        }

        Ok(track_sector_lists)
    }
}

/// Whether every pair addresses a sector inside the track layout.
pub open spec fn spec_pairs_in_range(tv: Seq<Seq<Seq<u8>>>, pairs: Seq<TrackSectorPair>) -> bool {
    forall|j: int|
        0 <= j < pairs.len() ==> (#[trigger] pairs[j]).track_number < tv.len() && pairs[j].sector_number
            < tv[pairs[j].track_number as int].len()
}

/// Whether every pair of every list addresses a sector inside the track
/// layout.
pub open spec fn spec_tsls_in_range(tv: Seq<Seq<Seq<u8>>>, tsls: Seq<SpecTrackSectorList>) -> bool {
    forall|k: int|
        0 <= k < tsls.len() ==> spec_pairs_in_range(tv, (#[trigger] tsls[k]).track_sector_pairs)
}

/// The bytes of the sectors a run of pairs addresses, concatenated in order.
pub open spec fn spec_pairs_data(tv: Seq<Seq<Seq<u8>>>, pairs: Seq<TrackSectorPair>) -> Seq<u8>
    decreases pairs.len(),
{
    if pairs.len() == 0 {
        Seq::empty()
    } else {
        let p = pairs.last();
        spec_pairs_data(tv, pairs.drop_last()) + tv[p.track_number as int][p.sector_number as int]
    }
}

/// The bytes of the sectors a run of track/sector lists addresses.
pub open spec fn spec_tsls_data(tv: Seq<Seq<Seq<u8>>>, tsls: Seq<SpecTrackSectorList>) -> Seq<u8>
    decreases tsls.len(),
{
    if tsls.len() == 0 {
        Seq::empty()
    } else {
        spec_tsls_data(tv, tsls.drop_last()) + spec_pairs_data(
            tv,
            tsls.last().track_sector_pairs,
        )
    }
}

/// What a binary file exports: the first four raw bytes are the load address
/// and the payload length as little-endian words, and the export is the
/// `length` bytes after them; a malformed header exports the raw bytes.
pub open spec fn spec_export_data(d: Seq<u8>) -> Seq<u8> {
    if d.len() >= 4 {
        let len = spec_le_u16(d[2], d[3]) as int;
        if d.len() - 4 >= len {
            d.subrange(4, 4 + len)
        } else {
            d
        }
    } else {
        d
    }
}

impl FileEntry {
    /// Get the export data for a file: the sectors its track/sector lists
    /// address, concatenated, with the binary header stripped.  Only binary
    /// files can be exported.
    pub fn get_data(&self, tracks: &Vec<Vec<Vec<u8>>>, track_sector_lists: &Vec<TrackSectorList>)
        -> (r: Result<Vec<u8>, Error>)
        ensures
            r is Ok <==> (spec_tsls_in_range(
                spec_tracks(tracks@),
                track_sector_lists@.map_values(|x: TrackSectorList| x@),
            ) && self.file_type == FileType::Binary),
            r matches Ok(d) ==> d@ == spec_export_data(
                spec_tsls_data(
                    spec_tracks(tracks@),
                    track_sector_lists@.map_values(|x: TrackSectorList| x@),
                ),
            ),
            r matches Err(e) ==> e.kind matches ErrorKind::Invalid(InvalidErrorKind::Invalid(_)),
            spec_tsls_in_range(
                spec_tracks(tracks@),
                track_sector_lists@.map_values(|x: TrackSectorList| x@),
            ) && self.file_type != FileType::Binary ==> (r matches Err(e) && e.kind
                matches ErrorKind::Invalid(InvalidErrorKind::Invalid(m)) && m@
                == "Unsupported file type for export: "@ + self.file_type.spec_display_str()),
    {
        let ghost tv = spec_tracks(tracks@);
        let ghost tslsv = track_sector_lists@.map_values(|x: TrackSectorList| x@);
        let mut data: Vec<u8> = Vec::new();
        let mut k: usize = 0;
        while k < track_sector_lists.len()
            invariant
                tv == spec_tracks(tracks@),
                tslsv == track_sector_lists@.map_values(|x: TrackSectorList| x@),
                k <= tslsv.len(),
                data@ == spec_tsls_data(tv, tslsv.take(k as int)),
                forall|i: int|
                    0 <= i < k ==> spec_pairs_in_range(tv, (#[trigger] tslsv[i]).track_sector_pairs),
            decreases tslsv.len() - k,
        {
            let pairs = &track_sector_lists[k].track_sector_pairs;
            proof {
                assert(tslsv[k as int].track_sector_pairs == pairs@);
            }
            let mut j: usize = 0;
            while j < pairs.len()
                invariant
                    tv == spec_tracks(tracks@),
                    tslsv == track_sector_lists@.map_values(|x: TrackSectorList| x@),
                    k < tslsv.len(),
                    pairs@ == tslsv[k as int].track_sector_pairs,
                    j <= pairs@.len(),
                    data@ == spec_tsls_data(tv, tslsv.take(k as int)) + spec_pairs_data(
                        tv,
                        pairs@.take(j as int),
                    ),
                    forall|i: int|
                        0 <= i < j ==> (#[trigger] pairs@[i]).track_number < tv.len()
                            && pairs@[i].sector_number < tv[pairs@[i].track_number as int].len(),
                decreases pairs@.len() - j,
            {
                let pair = pairs[j];
                if pair.track_number as usize >= tracks.len() {
                    proof {
                        assert(!spec_pairs_in_range(tv, tslsv[k as int].track_sector_pairs));
                        assert(!spec_tsls_in_range(tv, tslsv));
                    }
                    return Err(
                        Error::new(
                            ErrorKind::Invalid(
                                InvalidErrorKind::Invalid("File sector out of range".to_owned()),
                            ),
                        ),
                    );
                }
                let track_ref = &tracks[pair.track_number as usize];
                if pair.sector_number as usize >= track_ref.len() {
                    proof {
                        assert(!spec_pairs_in_range(tv, tslsv[k as int].track_sector_pairs));
                        assert(!spec_tsls_in_range(tv, tslsv));
                    }
                    return Err(
                        Error::new(
                            ErrorKind::Invalid(
                                InvalidErrorKind::Invalid("File sector out of range".to_owned()),
                            ),
                        ),
                    );
                }
                let sector = &track_ref[pair.sector_number as usize];
                data.extend_from_slice(sector.as_slice());
                proof {
                    assert(pairs@.take(j + 1).drop_last() =~= pairs@.take(j as int));
                    assert(pairs@.take(j + 1).last() == pairs@[j as int]);
                    assert(tv[pair.track_number as int][pair.sector_number as int] == sector@);
                    assert(data@ =~= spec_tsls_data(tv, tslsv.take(k as int)) + spec_pairs_data(
                        tv,
                        pairs@.take(j + 1),
                    ));
                }
                j = j + 1;
            }
            proof {
                assert(pairs@.take(pairs@.len() as int) =~= pairs@);
                assert(tslsv.take(k + 1).drop_last() =~= tslsv.take(k as int));
                assert(tslsv.take(k + 1).last() == tslsv[k as int]);
            }
            k = k + 1;
        }
        proof {
            assert(tslsv.take(tslsv.len() as int) =~= tslsv);
        }

        match self.file_type {
            FileType::Binary => {
                if data.len() >= 4 {
                    let (length, _) = match read_le_u16(data.as_slice(), 2) {
                        Some(v) => v,
                        None => (0u16, 0usize),
                    };
                    if data.len() - 4 >= length as usize {
                        match take_bytes(data.as_slice(), 4, length as usize) {
                            Some((payload, _)) => Ok(payload),
                            None => Ok(data),
                        }
                    } else {
                        Ok(data)
                    }
                } else {
                    Ok(data)
                }
            },
            _ => {
                let mut m = "Unsupported file type for export: ".to_owned();
                m.append(self.file_type.display_str());
                Err(Error::new(ErrorKind::Invalid(InvalidErrorKind::Invalid(m))))
            },
        }
    }
}

/// A file: its track/sector lists and its data.
pub struct File {
    /// The track/sector lists for this file.
    pub track_sector_lists: Vec<TrackSectorList>,
    /// The file data.
    pub data: Vec<u8>,
}

/// A file under the name the catalog lists it by.
pub struct NamedFile {
    /// The decoded file name.
    pub name: String,
    /// The file itself.
    pub file: File,
}

/// Files are a collection of File objects indexed by filename.
pub struct Files {
    /// The files, in catalog order.
    pub entries: Vec<NamedFile>,
}

impl Files {
    /// Whether a file of this name exists.
    pub fn contains_key(&self, name: &str) -> (r: bool)
        ensures
            r == exists|k: int|
                0 <= k < self.entries@.len() && (#[trigger] self.entries@[k]).name@ == name@,
    {
        let needle = name.to_owned();
        let mut i: usize = 0;
        while i < self.entries.len()
            invariant
                needle@ == name@,
                i <= self.entries@.len(),
                forall|k: int| 0 <= k < i ==> (#[trigger] self.entries@[k]).name@ != name@,
            decreases self.entries@.len() - i,
        {
            if self.entries[i].name == needle {
                return true;
            }
            i = i + 1;
        }
        false
    }

    /// The first file of this name, if one exists.
    pub fn get(&self, name: &str) -> (r: Option<&File>)
        ensures
            r is Some <==> exists|k: int|
                0 <= k < self.entries@.len() && (#[trigger] self.entries@[k]).name@ == name@,
            r matches Some(f) ==> exists|k: int|
                0 <= k < self.entries@.len() && (#[trigger] self.entries@[k]).name@ == name@ && *f
                    == self.entries@[k].file,
    {
        let needle = name.to_owned();
        let mut i: usize = 0;
        while i < self.entries.len()
            invariant
                needle@ == name@,
                i <= self.entries@.len(),
                forall|k: int| 0 <= k < i ==> (#[trigger] self.entries@[k]).name@ != name@,
            decreases self.entries@.len() - i,
        {
            if self.entries[i].name == needle {
                return Some(&self.entries[i].file);
            }
            i = i + 1;
        }
        None
    }
}

/// What a built file stores as its data: the export data of a binary file
/// whose sectors are all in range, and nothing otherwise.
pub open spec fn spec_stored_file_data(tv: Seq<Seq<Seq<u8>>>, e: SpecFileEntry) -> Seq<u8> {
    let tsls = spec_chain_tsls(
        tv,
        e.track_of_first_track_sector_list_sector as int,
        e.sector_of_first_track_sector_list_sector as int,
        560,
    );
    if e.file_type == FileType::Binary && spec_tsls_in_range(tv, tsls) {
        spec_export_data(spec_tsls_data(tv, tsls))
    } else {
        Seq::empty()
    }
}

/// Whether the files of a catalog can all be built: every entry's
/// track/sector-list chain walks to its end and every name decodes.
pub open spec fn spec_build_files_possible(tv: Seq<Seq<Seq<u8>>>, entries: Seq<SpecFileEntry>) -> bool {
    forall|k: int|
        0 <= k < entries.len() ==> spec_tsl_chain_ok(
            tv,
            (#[trigger] entries[k]).track_of_first_track_sector_list_sector as int,
            entries[k].sector_of_first_track_sector_list_sector as int,
            560,
        ) && spec_filename_ok(entries[k].file_name)
}

/// What the built files of a catalog hold: one named file per entry, in
/// catalog order, each with its chain of track/sector lists and its stored
/// data.
pub open spec fn spec_built_files_ok(
    tv: Seq<Seq<Seq<u8>>>,
    entries: Seq<SpecFileEntry>,
    files: Files,
) -> bool {
    &&& files.entries@.len() == entries.len()
    &&& forall|k: int|
        0 <= k < entries.len() ==> {
            let e = #[trigger] entries[k];
            &&& files.entries@[k].name@ == spec_filename_chars(e.file_name)
            &&& files.entries@[k].file.track_sector_lists@.map_values(|x: TrackSectorList| x@)
                == spec_chain_tsls(
                tv,
                e.track_of_first_track_sector_list_sector as int,
                e.sector_of_first_track_sector_list_sector as int,
                560,
            )
            &&& files.entries@[k].file.data@ == spec_stored_file_data(tv, e)
        }
}

/// Build the files in the catalog: walk each entry's track/sector lists and
/// assemble its data.  A file whose data cannot be exported is kept with
/// empty data.
pub fn build_files(catalog: FullCatalog, tracks: &Vec<Vec<Vec<u8>>>) -> (r: Result<Files, Error>)
    ensures
        r is Ok <==> spec_build_files_possible(
            spec_tracks(tracks@),
            catalog.file_entries@.map_values(|e: FileEntry| e@),
        ),
        r matches Ok(files) ==> spec_built_files_ok(
            spec_tracks(tracks@),
            catalog.file_entries@.map_values(|e: FileEntry| e@),
            files,
        ),
{
    let ghost tv = spec_tracks(tracks@);
    let mut entries: Vec<NamedFile> = Vec::new();
    let mut k: usize = 0;
    while k < catalog.file_entries.len()
        invariant
            tv == spec_tracks(tracks@),
            k <= catalog.file_entries@.len(),
            entries@.len() == k,
            forall|i: int|
                0 <= i < k ==> spec_tsl_chain_ok(
                    tv,
                    (#[trigger] catalog.file_entries@[i])@.track_of_first_track_sector_list_sector as int,
                    catalog.file_entries@[i]@.sector_of_first_track_sector_list_sector as int,
                    560,
                ) && spec_filename_ok(catalog.file_entries@[i]@.file_name),
            forall|i: int|
                0 <= i < k ==> {
                    let e = (#[trigger] catalog.file_entries@[i])@;
                    &&& entries@[i].name@ == spec_filename_chars(e.file_name)
                    &&& entries@[i].file.track_sector_lists@.map_values(|x: TrackSectorList| x@)
                        == spec_chain_tsls(
                        tv,
                        e.track_of_first_track_sector_list_sector as int,
                        e.sector_of_first_track_sector_list_sector as int,
                        560,
                    )
                    &&& entries@[i].file.data@ == spec_stored_file_data(tv, e)
                },
        decreases catalog.file_entries@.len() - k,
    {
        let ghost ev = catalog.file_entries@.map_values(|e: FileEntry| e@);
        proof {
            assert(ev[k as int] == catalog.file_entries@[k as int]@);
        }
        let file_entry = &catalog.file_entries[k];
        let track_sector_lists = match file_entry.build_file(tracks) {
            Ok(v) => v,
            Err(e) => {
                proof {
                    assert(!spec_build_files_possible(tv, ev));
                }
                return Err(e);
            },
        };
        let name = match file_entry.filename() {
            Ok(n) => n,
            Err(e) => {
                proof {
                    assert(!spec_build_files_possible(tv, ev));
                }
                return Err(e);
            },
        };
        let data = match file_entry.get_data(tracks, &track_sector_lists) {
            Ok(d) => d,
            Err(_) => Vec::new(),
        };
        entries.push(NamedFile { name, file: File { track_sector_lists, data } });
        k = k + 1;
    }
    let files = Files { entries };
    proof {
        let ev = catalog.file_entries@.map_values(|e: FileEntry| e@);
        assert(forall|i: int| 0 <= i < ev.len() ==> #[trigger] ev[i] == catalog.file_entries@[i]@);
        assert(spec_build_files_possible(tv, ev));
        assert(spec_built_files_ok(tv, ev, files));
    }
    Ok(files)
}

/// Law: in a serialized file entry, every byte of the name field past the
/// name is exactly 0xA0, and the byte at offset 2 is the on-disk type byte:
/// the file-type code with bit 7 or-ed in exactly when the entry is locked.
pub proof fn lemma_file_entry_serialized_form(e: SpecFileEntry)
    requires
        1 <= e.file_name.len() <= 30,
    ensures
        spec_file_entry_bytes(e).len() == 35,
        forall|i: int|
            3 + e.file_name.len() <= i < 33 ==> #[trigger] spec_file_entry_bytes(e)[i] == 0xA0,
        spec_file_entry_bytes(e)[2] == (spec_file_type_code(e.file_type) | if e.locked {
            0x80u8
        } else {
            0u8
        }),
{
    let b = spec_file_entry_bytes(e);
    let n = e.file_name.len() as int;
    let code = spec_file_type_code(e.file_type);
    assert(code < 0x80);
    assert(((code + 0x80) as u8) == (code | 0x80) && (code | 0u8) == code) by (bit_vector)
        requires
            code < 0x80,
    ;
    assert forall|i: int| 3 + n <= i < 33 implies #[trigger] b[i] == 0xA0 by {
        assert(b[i] == Seq::new((30 - e.file_name.len()) as nat, |k: int| 0xA0u8)[i - 3 - n]);
    }
}

/// Law: a valid file entry survives the round trip through serialization and
/// parsing.  For an entry whose name is one to thirty bytes of low ASCII
/// with no trailing space, parsing its serialized bytes yields the same
/// track, sector, type, locked flag and length, and a name that displays as
/// the original.
pub proof fn lemma_file_entry_round_trip(e: SpecFileEntry)
    requires
        1 <= e.file_name.len() <= 30,
        forall|i: int| 0 <= i < e.file_name.len() ==> 0 < #[trigger] e.file_name[i] < 0x80,
        e.file_name.last() != 0x20,
    ensures
        ({
            let p = spec_file_entry_at(spec_file_entry_bytes(e), 0);
            &&& p.track_of_first_track_sector_list_sector
                == e.track_of_first_track_sector_list_sector
            &&& p.sector_of_first_track_sector_list_sector
                == e.sector_of_first_track_sector_list_sector
            &&& p.file_type == e.file_type
            &&& p.locked == e.locked
            &&& p.file_length_in_sectors == e.file_length_in_sectors
            &&& spec_filename_ok(p.file_name)
            &&& spec_filename_chars(p.file_name) == e.file_name.map_values(|b: u8| b as char)
        }),
{
    let b = spec_file_entry_bytes(e);
    let p = spec_file_entry_at(b, 0);
    let n = e.file_name.len() as int;
    let code = spec_file_type_code(e.file_type);

    assert(code < 0x80);
    assert((((code + 0x80) as u8) & 0x7F) == code && (((code + 0x80) as u8) & 0x80) != 0 && (code
        & 0x7F) == code && (code & 0x80) == 0) by (bit_vector)
        requires
            code < 0x80,
    ;
    assert(b[2] == if e.locked {
        (code + 0x80) as u8
    } else {
        code
    });
    assert(b[2] & 0x7F == code);
    assert(p.locked == e.locked);
    assert(p.file_type == e.file_type);

    let w = e.file_length_in_sectors;
    assert(spec_le_u16((w & 0xFF) as u8, (w >> 8) as u8) == w) by (bit_vector);
    assert(b[33] == (e.file_length_in_sectors & 0xFF) as u8);
    assert(b[34] == (e.file_length_in_sectors >> 8) as u8);
    assert(p.file_length_in_sectors == e.file_length_in_sectors);

    // The stored name: the original bytes shifted high, then 0xA0 padding.
    assert forall|i: int| 0 <= i < 30 implies p.file_name[i] == if i < n {
        (e.file_name[i] + 0x80) as u8
    } else {
        0xA0u8
    } by {
        if i < n {
            assert(b[3 + i] == e.file_name.map_values(|c: u8| (c + 0x80) as u8)[i]);
        } else {
            assert(b[3 + i] == Seq::new((30 - e.file_name.len()) as nat, |k: int| 0xA0u8)[i - 3
                - n + 3]);
        }
    }
    assert(spec_filename_ok(p.file_name));

    // Decoding removes the shift and maps the padding to plain spaces.
    assert(spec_filename_decoded(p.file_name) =~= e.file_name + Seq::new(
        (30 - e.file_name.len()) as nat,
        |i: int| 0x20u8,
    ));
    lemma_trim_spaces_pad(e.file_name, (30 - e.file_name.len()) as nat);
    assert(spec_trim_spaces(e.file_name) == e.file_name);
    assert(spec_filename_chars(p.file_name) =~= e.file_name.map_values(|b: u8| b as char));
}

/// A FileEntry with its associated file data: the raw payload, and the
/// memory address and byte length a binary file carries.
pub struct FullFile {
    /// The associated FileEntry for this file.
    pub file_entry: FileEntry,
    /// The raw data for this file, not including the header metadata.
    pub data: Vec<u8>,
    /// The address this file was loaded at in memory.
    pub address: u16,
    /// The length of this file in bytes.
    pub length: u16,
}

/// The bytes a binary full file serializes to: the address and length as
/// little-endian words, then the payload.
pub open spec fn spec_full_file_bytes(address: u16, length: u16, data: Seq<u8>) -> Seq<u8> {
    seq![
        (address & 0xFF) as u8,
        (address >> 8) as u8,
        (length & 0xFF) as u8,
        (length >> 8) as u8,
    ] + data
}

impl FullFile {
    /// Serialize this file to a block of memory: a binary file carries its
    /// address and length as a four-byte header before its data.  Other
    /// file types cannot be serialized.
    pub fn as_vec(&self) -> (r: Result<Vec<u8>, Error>)
        ensures
            r is Ok <==> self.file_entry.file_type == FileType::Binary,
            r matches Ok(v) ==> v@ == spec_full_file_bytes(self.address, self.length, self.data@),
            r matches Err(e) ==> e.kind matches ErrorKind::Unimplemented(_),
    {
        match self.file_entry.file_type {
            FileType::Binary => {
                let mut bytes: Vec<u8> = Vec::new();
                let mut addr = crate::serialize::little_endian_word_to_bytes(self.address);
                bytes.append(&mut addr);
                let mut len = crate::serialize::little_endian_word_to_bytes(self.length);
                bytes.append(&mut len);
                bytes.extend_from_slice(self.data.as_slice());
                proof {
                    assert(bytes@ =~= spec_full_file_bytes(self.address, self.length, self.data@));
                }
                Ok(bytes)
            },
            _ => {
                let mut m = "Unsupported file type for serialization: ".to_owned();
                m.append(self.file_entry.file_type.display_str());
                Err(Error::new(ErrorKind::Unimplemented(m)))
            },
        }
    }
}

} // verus!
