//! Heuristics for identifying a Commodore disk image.
use vstd::prelude::*;

verus! {

use crate::apple::disk::spec_ext_lower;
use vstd::string::StringSliceAdditionalSpecFns;

/// The format of a Commodore disk image, carrying the file size.
#[derive(Clone, Copy, Debug, PartialEq, Eq, Structural)]
pub enum Format {
    /// A D64 disk image.
    D64(u64),
}

/// Heuristic guesses for what kind of Commodore disk an image is.
#[derive(Debug, PartialEq, Eq)]
pub struct CommodoreDiskGuess {
    /// The disk format.
    pub format: Format,
    /// The raw image data.
    pub data: Vec<u8>,
}

impl CommodoreDiskGuess {
    /// Return a new CommodoreDiskGuess holding the given raw image data.
    pub fn new(format: Format, data: Vec<u8>) -> (g: CommodoreDiskGuess)
        ensures
            g.format == format && g.data@ == data@,
    {
        CommodoreDiskGuess { format, data }
    }

    /// Try to guess a Commodore disk format from a filename and the image
    /// data: only the `d64` extension is recognised.  The data's length
    /// stands in for the file size.
    pub fn guess(filename: &str, data: &[u8]) -> (r: Option<CommodoreDiskGuess>)
        ensures
            r is Some <==> spec_ext_lower(filename.spec_bytes()) == seq![0x64u8, 0x36u8, 0x34u8],
            r matches Some(g) ==> g.format == Format::D64(data@.len() as u64) && g.data@ == data@,
    {
        let ext = crate::apple::disk::filename_ext_lower(filename);
        let is_d64 = ext.len() == 3 && ext[0] == 0x64 && ext[1] == 0x36 && ext[2] == 0x34;
        proof {
            assert(is_d64 == (ext@ == seq![0x64u8, 0x36u8, 0x34u8])) by {
                if is_d64 {
                    assert(ext@ =~= seq![0x64u8, 0x36u8, 0x34u8]);
                }
            }
        }
        if is_d64 {
            let mut image = Vec::new();
            image.extend_from_slice(data);
            Some(CommodoreDiskGuess::new(Format::D64(data.len() as u64), image))
        } else {
            None
        }
    }
}

} // verus!
