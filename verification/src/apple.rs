//! Apple ][ 8-bit disk images.
//!
//! There are several methods used to determine the disk image format for
//! Apple disks: common file extensions combined with file sizes, and magic
//! bytes inside the image.  A plain 140K image holds a DOS 3.3 filesystem;
//! a nibble image holds GCR-encoded sectors.

pub mod catalog;
pub mod disk;
pub mod nibble;
