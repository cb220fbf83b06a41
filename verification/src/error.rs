//! What can go wrong while a request head is read.

use vstd::prelude::*;
use vstd::std_specs::convert::FromSpecImpl;

verus! {

/// `std::io::Error`, carried from the reader to the caller unread.
#[verifier::external_type_specification]
#[verifier::external_body]
pub struct ExIoError(std::io::Error);

/// Why a head that the parser has matched is not a request.
#[derive(Clone, Copy, Debug, PartialEq, Eq, Structural)]
pub enum LogicError {
    /// What the parser reported cannot be held as an offset index: a field
    /// lies too far from the start of the buffer, or more header slots are
    /// populated than the index has.
    Capture,
    /// A field, or the head itself, reaches outside the buffer that it is
    /// read from.
    OutOfBounds,
    /// The method, the target or the version is absent.
    Incomplete,
    /// The version tag, given here, is neither 0 nor 1.
    Version(u8),
    /// The method is not one that the `http` crate accepts.
    Method,
    /// The target is not a URI that the `http` crate accepts.
    Uri,
    /// A header name is not one that the `http` crate accepts.
    HeaderName,
    /// A header value holds a byte that the `http` crate refuses.
    HeaderValue,
}

/// Why the bytes read so far are not the beginning of a request.
#[derive(Debug)]
pub enum ParseError {
    /// The parser's own verdict.
    Syntax(httparse::Error),
    /// The input ended before the head was complete.
    UnexpectedEnd,
}

/// An error raised while reading a request head.
#[derive(Debug)]
pub enum ReadError {
    /// The reader failed.
    Io(std::io::Error),
    /// The bytes are not the head of an HTTP request.
    Parse(ParseError),
    /// The head was parsed and yet is no request.
    Logic(LogicError),
}

/// The kind of an error, without what an outside crate reported with it.
#[derive(Clone, Copy, Debug, PartialEq, Eq, Structural)]
pub enum ErrorKind {
    /// The reader failed.
    Io,
    /// The parser refused the bytes.
    Syntax,
    /// The input ended before the head was complete.
    UnexpectedEnd,
    /// The head was parsed and yet is no request, for this reason.
    Logic(LogicError),
}

impl ReadError {
    /// The kind of this error.
    pub open spec fn kind_of(&self) -> ErrorKind {
        match *self {
            ReadError::Io(_) => ErrorKind::Io,
            ReadError::Parse(ParseError::Syntax(_)) => ErrorKind::Syntax,
            ReadError::Parse(ParseError::UnexpectedEnd) => ErrorKind::UnexpectedEnd,
            ReadError::Logic(fault) => ErrorKind::Logic(fault),
        }
    }

    /// The kind of this error.
    #[verifier::when_used_as_spec(kind_of)]
    pub fn kind(&self) -> (r: ErrorKind)
        ensures
            r == self.kind_of(),
    {
        match self {
            ReadError::Io(_) => ErrorKind::Io,
            ReadError::Parse(ParseError::Syntax(_)) => ErrorKind::Syntax,
            ReadError::Parse(ParseError::UnexpectedEnd) => ErrorKind::UnexpectedEnd,
            ReadError::Logic(fault) => ErrorKind::Logic(*fault),
        }
    }
}

impl From<std::io::Error> for ReadError {
    fn from(e: std::io::Error) -> (r: ReadError) {
        ReadError::Io(e)
    }
}

impl FromSpecImpl<std::io::Error> for ReadError {
    open spec fn obeys_from_spec() -> bool {
        true
    }

    open spec fn from_spec(e: std::io::Error) -> ReadError {
        ReadError::Io(e)
    }
}

impl From<httparse::Error> for ReadError {
    fn from(e: httparse::Error) -> (r: ReadError) {
        ReadError::Parse(ParseError::Syntax(e))
    }
}

impl FromSpecImpl<httparse::Error> for ReadError {
    open spec fn obeys_from_spec() -> bool {
        true
    }

    open spec fn from_spec(e: httparse::Error) -> ReadError {
        ReadError::Parse(ParseError::Syntax(e))
    }
}

impl From<LogicError> for ReadError {
    fn from(e: LogicError) -> (r: ReadError) {
        ReadError::Logic(e)
    }
}

impl FromSpecImpl<LogicError> for ReadError {
    open spec fn obeys_from_spec() -> bool {
        true
    }

    open spec fn from_spec(e: LogicError) -> ReadError {
        ReadError::Logic(e)
    }
}

} // verus!
