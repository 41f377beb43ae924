use vstd::prelude::*;
use vstd::std_specs::convert::FromSpecImpl;
use vstd::string::*;

use uuid::parser::ParseError;

verus! {

/// std's I/O error.
#[verifier::external_type_specification]
#[verifier::external_body]
pub struct ExIoError(std::io::Error);

/// The errors of the library.
#[derive(Debug)]
pub enum Error {
    /// An RPC request failed; the text says how.
    Grpc(String),
    /// An I/O operation failed.
    Io(std::io::Error),
    /// A text that should name a node is no UUID.
    Uuid(ParseError),
}

/// The library's results.
pub type Result<T> = core::result::Result<T, Error>;

impl From<std::io::Error> for Error {
    fn from(err: std::io::Error) -> (r: Error) {
        Error::Io(err)
    }
}

impl FromSpecImpl<std::io::Error> for Error {
    open spec fn obeys_from_spec() -> bool {
        true
    }

    open spec fn from_spec(err: std::io::Error) -> Error {
        Error::Io(err)
    }
}

impl From<ParseError> for Error {
    fn from(err: ParseError) -> (r: Error) {
        Error::Uuid(err)
    }
}

impl FromSpecImpl<ParseError> for Error {
    open spec fn obeys_from_spec() -> bool {
        true
    }

    open spec fn from_spec(err: ParseError) -> Error {
        Error::Uuid(err)
    }
}

impl Error {
    /// The message that describes the error: a prefix naming the kind of
    /// error, followed by the inner error's own description.
    pub fn describe(&self) -> (s: String)
        ensures
            match self {
                Error::Grpc(inner) => s@ == "Grpc Error: "@ + inner@,
                Error::Io(inner) => exists|d: String|
                    to_string_from_display_ensures::<std::io::Error>(inner, d) && s@ == "Io Error: "@
                        + d@,
                Error::Uuid(inner) => exists|d: String|
                    to_string_from_display_ensures::<ParseError>(inner, d) && s@ == "Uuid error: "@
                        + d@,
            },
    {
        match self {
            Error::Grpc(inner) => {
                let mut s = String::from_str("Grpc Error: ");
                s.append(inner.as_str());
                s
            },
            Error::Io(inner) => {
                let d = inner.to_string();
                let mut s = String::from_str("Io Error: ");
                s.append(d.as_str());
                s
            },
            Error::Uuid(inner) => {
                let d = inner.to_string();
                let mut s = String::from_str("Uuid error: ");
                s.append(d.as_str());
                s
            },
        }
    }
}

} // verus!
