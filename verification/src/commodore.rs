//! Parse Commodore disk images.
//!
//! Currently this includes support for parsing D64 disk images.

pub mod d64;
pub mod disk;
