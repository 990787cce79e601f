//! The outcomes that are not a record.
use vstd::prelude::*;

verus! {

/// Why an operation on a database gave no record.
#[derive(Debug, Clone, Copy, PartialEq, Eq, Structural)]
pub enum Error {
    /// A range of bytes could not be read from the backing store.
    IoError,
    /// The database was used before a backing store was attached to it.
    InvalidState,
    /// The preamble describes a file of an incompatible generation.
    IncompatibleFormat,
    /// The text handed in is no IPv4 or IPv6 address. Raised by the caller's
    /// address parser, never by a lookup.
    InvalidIP,
    /// The search ended without a range that holds the address.
    NotFound,
    /// The bytes of a string are not valid UTF-8.
    DecodeError,
}

impl Error {
    /// The text that describes the error.
    pub open spec fn spec_message(self) -> Seq<char> {
        match self {
            Error::IoError => "error reading DB file"@,
            Error::InvalidState => "db is not open"@,
            Error::IncompatibleFormat =>
                "Incorrect IP2Location BIN file format. Please make sure that you are using the latest IP2Location BIN file."@,
            Error::InvalidIP => "ip address is invalid"@,
            Error::NotFound => "no record found"@,
            Error::DecodeError => "string is not valid UTF-8"@,
        }
    }

    /// A human-readable description of the error.
    pub fn message(&self) -> (text: String)
        ensures
            text@ == self.spec_message(),
    {
        match self {
            Error::IoError => "error reading DB file".to_owned(),
            Error::InvalidState => "db is not open".to_owned(),
            Error::IncompatibleFormat =>
                "Incorrect IP2Location BIN file format. Please make sure that you are using the latest IP2Location BIN file.".to_owned(),
            Error::InvalidIP => "ip address is invalid".to_owned(),
            Error::NotFound => "no record found".to_owned(),
            Error::DecodeError => "string is not valid UTF-8".to_owned(),
        }
    }
}

} // verus!
