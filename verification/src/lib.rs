//! Decoders for vintage floppy-disk images: Apple ][ (plain DOS 3.3 and
//! GCR-nibble-encoded), Atari ST STX (Pasti), and Commodore 1541 D64.
//!
//! The decoding core is purely computational: byte slices go in, decoded
//! structures come out.  File I/O, configuration loading and logging are
//! left to the surrounding application.

pub mod apple;
pub mod bytes;
pub mod commodore;
pub mod config;
pub mod error;
pub mod image;
pub mod serialize;
pub mod stx;
pub mod text;
