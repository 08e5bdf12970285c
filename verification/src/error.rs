//! The errors of the library.

use vstd::prelude::*;
use vstd::string::to_string_from_display_ensures;

verus! {

/// `std::io::Error`, of which nothing is looked into here.
#[verifier::external_type_specification]
#[verifier::external_body]
pub struct ExIoError(std::io::Error);

/// What can go wrong while one process record, or the report as a whole, is built.
#[derive(Debug)]
pub enum Error {
    /// A file could not be opened or read.
    Io(std::io::Error),
    /// A record is not what it should be; the text says how.
    Processing(String),
    /// A line of a memory map does not hold a size.
    ParseSize,
}

impl Error {
    /// The text that describes the error to a reader. For an I/O error it is
    /// the text that the error itself displays.
    pub fn message(&self) -> (r: String)
        ensures
            self matches Error::Io(e) ==> to_string_from_display_ensures::<std::io::Error>(&e, r),
            self matches Error::Processing(text) ==> r@ == text@,
            self is ParseSize ==> r@ == "Could not parse a size"@,
    {
        match self {
            Error::Io(e) => e.to_string(),
            Error::Processing(text) => text.clone(),
            Error::ParseSize => "Could not parse a size".to_owned(),
        }
    }
}

impl vstd::std_specs::convert::FromSpecImpl<std::io::Error> for Error {
    open spec fn obeys_from_spec() -> bool {
        true
    }

    open spec fn from_spec(v: std::io::Error) -> Error {
        Error::Io(v)
    }
}

impl From<std::io::Error> for Error {
    fn from(v: std::io::Error) -> (r: Error) {
        Error::Io(v)
    }
}

} // verus!
