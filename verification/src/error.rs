//! Error results that can occur while decoding or re-encoding disk images.
//!
//! File-system errors belong to the application around this library; the
//! decoding core itself reports only the kinds below.
use vstd::prelude::*;

verus! {

use vstd::string::StringExecFns;

/// An error that can occur when processing a disk image.
#[derive(Debug)]
pub struct Error {
    /// The kind of this error.
    pub kind: ErrorKind,
}

impl Error {
    /// Create a new Error with a given ErrorKind variant.
    pub fn new(kind: ErrorKind) -> (e: Error)
        ensures
            e.kind == kind,
    {
        Error { kind }
    }

    /// A human-readable description of this error.
    pub fn message(&self) -> (r: String)
        ensures
            r@ == self.kind.spec_message(),
    {
        self.kind.message()
    }
}

/// The kinds of errors that can occur when processing a disk image.
#[derive(Debug)]
pub enum ErrorKind {
    /// Generic error type.
    Message(String),
    /// An error that occurs when dealing with invalid or unexpected data.
    Invalid(InvalidErrorKind),
    /// The data was in a format that is unsupported or has unsupported
    /// features.
    Unimplemented(String),
    /// The data requested was not found in the image.
    NotFound(String),
}

/// An InvalidErrorKind is returned when the data is invalid.
#[derive(Debug)]
pub enum InvalidErrorKind {
    /// The data was invalid.
    Invalid(String),
    /// The data contains an invalid checksum.
    Checksum,
}

impl ErrorKind {
    /// Return a new generic ErrorKind::Message with a given string message.
    pub fn new(message: &str) -> (k: ErrorKind)
        ensures
            k matches ErrorKind::Message(m) && m@ == message@,
    {
        ErrorKind::Message(message.to_owned())
    }

    /// What a message for this error kind says.
    pub open spec fn spec_message(self) -> Seq<char> {
        match self {
            ErrorKind::Message(m) => "An error occurred: "@ + m@,
            ErrorKind::Invalid(InvalidErrorKind::Invalid(m)) => "Image is invalid: "@ + m@,
            ErrorKind::Invalid(InvalidErrorKind::Checksum) => "Image has an invalid checksum"@,
            ErrorKind::Unimplemented(m) => "Unimplemented feature: "@ + m@,
            ErrorKind::NotFound(m) => "Data not found: "@ + m@,
        }
    }

    /// A human-readable description of this error kind.
    pub fn message(&self) -> (r: String)
        ensures
            r@ == self.spec_message(),
    {
        match self {
            ErrorKind::Message(m) => {
                let mut r = "An error occurred: ".to_owned();
                r.append(m.as_str());
                r
            },
            ErrorKind::Invalid(InvalidErrorKind::Invalid(m)) => {
                let mut r = "Image is invalid: ".to_owned();
                r.append(m.as_str());
                r
            },
            ErrorKind::Invalid(InvalidErrorKind::Checksum) => {
                "Image has an invalid checksum".to_owned()
            },
            ErrorKind::Unimplemented(m) => {
                let mut r = "Unimplemented feature: ".to_owned();
                r.append(m.as_str());
                r
            },
            ErrorKind::NotFound(m) => {
                let mut r = "Data not found: ".to_owned();
                r.append(m.as_str());
                r
            },
        }
    }
}

} // verus!
