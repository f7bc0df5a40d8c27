//! The configuration the decoding core observes.
//!
//! Loading a configuration file is the application's business; the core
//! reads a single switch out of it.
use vstd::prelude::*;

verus! {

/// Settings that influence decoding.
#[derive(Clone, Copy, PartialEq, Eq, Structural)]
pub struct Config {
    /// When true, a failed nibble checksum is logged and decoding goes on;
    /// when false, it ends the decode.
    pub ignore_checksums: bool,
}

impl Config {
    /// A configuration with every switch given explicitly.
    pub fn new(ignore_checksums: bool) -> (c: Config)
        ensures
            c.ignore_checksums == ignore_checksums,
    {
        Config { ignore_checksums }
    }
}

} // verus!
