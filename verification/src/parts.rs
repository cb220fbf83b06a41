//! The typed request: what the head of a request is turned into once the
//! parser has matched all of it.
//!
//! The fields are read out of the buffer as the parser's slices give them,
//! byte for byte. What is a valid method, target or header is for the `http`
//! crate to say: each field is put to it.

use vstd::prelude::*;
use vstd::slice::slice_to_vec;
use crate::error::LogicError;
use crate::raw::{RawHeader, RawRequest, RawRequestView, RawSlice};

verus! {

/// The version of HTTP that a request speaks.
#[derive(Clone, Copy, Debug, PartialEq, Eq, Structural)]
pub enum Version {
    /// HTTP/1.0
    Http10,
    /// HTTP/1.1
    Http11,
}

/// The version that a version tag stands for.
pub open spec fn version_of(tag: u8) -> Option<Version> {
    if tag == 0 {
        Some(Version::Http10)
    } else if tag == 1 {
        Some(Version::Http11)
    } else {
        None
    }
}

/// Maps the parser's version tag to a version: 0 is HTTP/1.0 and 1 is
/// HTTP/1.1. Any other tag is refused, and reported with the error.
pub fn http_version(version: u8) -> (r: Result<Version, LogicError>)
    ensures
        r == match version_of(version) {
            Some(found) => Ok::<Version, LogicError>(found),
            None => Err(LogicError::Version(version)),
        },
{
    if version == 0 {
        Ok(Version::Http10)
    } else if version == 1 {
        Ok(Version::Http11)
    } else {
        Err(LogicError::Version(version))
    }
}

/// The head of a request: method, target, version, and the headers in the
/// order in which they came, none merged and none dropped.
#[derive(Clone, Debug, PartialEq, Eq)]
pub struct Parts {
    pub method: Vec<u8>,
    pub uri: Vec<u8>,
    pub version: Version,
    /// Name and value of each header.
    pub headers: Vec<(Vec<u8>, Vec<u8>)>,
}

/// The mathematical value of `Parts`.
pub struct PartsView {
    pub method: Seq<u8>,
    pub uri: Seq<u8>,
    pub version: Version,
    pub headers: Seq<(Seq<u8>, Seq<u8>)>,
}

impl View for Parts {
    type V = PartsView;

    open spec fn view(&self) -> PartsView {
        PartsView {
            method: self.method@,
            uri: self.uri@,
            version: self.version,
            headers: Seq::new(
                self.headers@.len(),
                |i: int| (self.headers@[i].0@, self.headers@[i].1@),
            ),
        }
    }
}

/// Whether `http::Method::from_bytes` accepts these bytes.
pub uninterp spec fn accepts_method(bytes: Seq<u8>) -> bool;

/// Whether `http::Uri::try_from` accepts these bytes.
pub uninterp spec fn accepts_uri(bytes: Seq<u8>) -> bool;

/// Whether `http::header::HeaderName::from_bytes` accepts these bytes.
pub uninterp spec fn accepts_header_name(bytes: Seq<u8>) -> bool;

/// A byte that may stand in a header value: a tab, or anything from the space
/// upwards but DEL.
pub open spec fn value_byte(byte: u8) -> bool {
    byte == 9 || (byte >= 32 && byte != 127)
}

/// A header value that holds such bytes only.
pub open spec fn accepts_header_value(bytes: Seq<u8>) -> bool {
    forall|i: int| 0 <= i < bytes.len() ==> value_byte(#[trigger] bytes[i])
}

/// Puts a method to `http::Method::from_bytes`.
///
/// Trusted: the verdict depends on the bytes alone.
#[verifier::external_body]
fn method_accepted(bytes: &[u8]) -> (ok: bool)
    ensures
        ok == accepts_method(bytes@),
{
    http::Method::from_bytes(bytes).is_ok()
}

/// Puts a request target to `http::Uri::try_from`.
///
/// Trusted: the verdict depends on the bytes alone.
#[verifier::external_body]
fn uri_accepted(bytes: &[u8]) -> (ok: bool)
    ensures
        ok == accepts_uri(bytes@),
{
    http::Uri::try_from(bytes).is_ok()
}

/// Puts a header name to `http::header::HeaderName::from_bytes`.
///
/// Trusted: the verdict depends on the bytes alone.
#[verifier::external_body]
fn header_name_accepted(bytes: &[u8]) -> (ok: bool)
    ensures
        ok == accepts_header_name(bytes@),
{
    http::header::HeaderName::from_bytes(bytes).is_ok()
}

/// Puts a header value to `http::header::HeaderValue::from_bytes`.
///
/// Trusted: as the crate documents, a value is accepted where each of its
/// bytes is 32 or more and not 127; its source accepts the tab as well.
#[verifier::external_body]
fn header_value_accepted(bytes: &[u8]) -> (ok: bool)
    ensures
        ok == accepts_header_value(bytes@),
{
    http::header::HeaderValue::from_bytes(bytes).is_ok()
}

/// The bytes of a field, where it lies inside the buffer.
pub open spec fn field(slice: RawSlice, buffer: usize, bytes: Seq<u8>) -> Option<Seq<u8>> {
    if slice.within(buffer, bytes.len() as usize) {
        Some(slice.contents(buffer, bytes))
    } else {
        None
    }
}

/// Name and value of a header slot, where both lie inside the buffer.
pub open spec fn header_field(slot: RawHeader, buffer: usize, bytes: Seq<u8>) -> Option<
    (Seq<u8>, Seq<u8>),
> {
    match (field(slot.name, buffer, bytes), field(slot.value, buffer, bytes)) {
        (Some(name), Some(value)) => Some((name, value)),
        _ => None,
    }
}

/// What `Parts::read` returns: the fields of a raw request, read from a buffer
/// that starts at `buffer` and holds `bytes`.
pub open spec fn read_parts(raw: RawRequestView, buffer: usize, bytes: Seq<u8>) -> Result<
    PartsView,
    LogicError,
> {
    if raw.method is None || raw.path is None || raw.version is None {
        Err(LogicError::Incomplete)
    } else if version_of(raw.version.unwrap()) is None {
        Err(LogicError::Version(raw.version.unwrap()))
    } else if field(raw.method.unwrap(), buffer, bytes) is None || field(
        raw.path.unwrap(),
        buffer,
        bytes,
    ) is None || (exists|i: int|
        0 <= i < raw.headers.len() && header_field(#[trigger] raw.headers[i], buffer, bytes)
            is None) {
        Err(LogicError::OutOfBounds)
    } else {
        Ok(
            PartsView {
                method: field(raw.method.unwrap(), buffer, bytes).unwrap(),
                uri: field(raw.path.unwrap(), buffer, bytes).unwrap(),
                version: version_of(raw.version.unwrap()).unwrap(),
                headers: Seq::new(
                    raw.headers.len(),
                    |i: int| header_field(raw.headers[i], buffer, bytes).unwrap(),
                ),
            },
        )
    }
}

/// The first refusal among four verdicts, in the order method, target, header
/// names, header values.
pub open spec fn refusal(method: bool, uri: bool, names: bool, values: bool) -> Result<
    (),
    LogicError,
> {
    if !method {
        Err(LogicError::Method)
    } else if !uri {
        Err(LogicError::Uri)
    } else if !names {
        Err(LogicError::HeaderName)
    } else if !values {
        Err(LogicError::HeaderValue)
    } else {
        Ok(())
    }
}

/// What `Parts::check` returns: the first refusal among what the `http` crate
/// makes of the method, of the target, of all header names and of all header
/// values.
pub open spec fn check_parts(parts: PartsView) -> Result<(), LogicError> {
    refusal(
        accepts_method(parts.method),
        accepts_uri(parts.uri),
        forall|i: int|
            0 <= i < parts.headers.len() ==> accepts_header_name((#[trigger] parts.headers[i]).0),
        forall|i: int|
            0 <= i < parts.headers.len() ==> accepts_header_value((#[trigger] parts.headers[i]).1),
    )
}

/// Says which verdict refuses first: the method's, the target's, that on the
/// header names or that on the header values, each `true` where the `http`
/// crate accepts.
pub fn first_refusal(method: bool, uri: bool, names: bool, values: bool) -> (r: Result<
    (),
    LogicError,
>)
    ensures
        r == refusal(method, uri, names, values),
{
    if !method {
        Err(LogicError::Method)
    } else if !uri {
        Err(LogicError::Uri)
    } else if !names {
        Err(LogicError::HeaderName)
    } else if !values {
        Err(LogicError::HeaderValue)
    } else {
        Ok(())
    }
}

/// The typed request that a raw request stands for: its fields as read, where
/// the `http` crate accepts each of them.
pub open spec fn typed(raw: RawRequestView, buffer: usize, bytes: Seq<u8>) -> Result<
    PartsView,
    LogicError,
> {
    match read_parts(raw, buffer, bytes) {
        Err(fault) => Err(fault),
        Ok(parts) => match check_parts(parts) {
            Err(fault) => Err(fault),
            Ok(_) => Ok(parts),
        },
    }
}

fn read_field(slice: &RawSlice, buffer: usize, bytes: &[u8]) -> (r: Option<Vec<u8>>)
    ensures
        r matches Some(found) ==> field(*slice, buffer, bytes@) == Some(found@),
        r is None ==> field(*slice, buffer, bytes@) is None,
{
    match slice.read(buffer, bytes) {
        Some(found) => Some(slice_to_vec(found)),
        None => None,
    }
}

impl Parts {
    /// Reads the fields of a raw request out of the buffer that it points
    /// into: `bytes`, which start at the address `buffer`. Every header slot
    /// of the raw request is read, in order; none is taken for an end mark.
    ///
    /// Fails with `Incomplete` where the method, the target or the version is
    /// absent; else with `Version` where the version tag is unknown; else with
    /// `OutOfBounds` where a field does not lie inside the buffer.
    #[verifier::loop_isolation(false)]
    pub fn read(raw: &RawRequest, buffer: usize, bytes: &[u8]) -> (r: Result<Parts, LogicError>)
        ensures
            r matches Ok(parts) ==> read_parts(raw@, buffer, bytes@) == Ok::<PartsView, LogicError>(
                parts@,
            ),
            r matches Err(fault) ==> read_parts(raw@, buffer, bytes@) == Err::<
                PartsView,
                LogicError,
            >(fault),
    {
        let (method_at, path_at, tag) = match (&raw.method, &raw.path, &raw.version) {
            (Some(method_at), Some(path_at), Some(tag)) => (method_at, path_at, *tag),
            _ => {
                return Err(LogicError::Incomplete);
            },
        };
        let version = match http_version(tag) {
            Ok(version) => version,
            Err(fault) => {
                return Err(fault);
            },
        };
        let method = match read_field(method_at, buffer, bytes) {
            Some(method) => method,
            None => {
                return Err(LogicError::OutOfBounds);
            },
        };
        let uri = match read_field(path_at, buffer, bytes) {
            Some(uri) => uri,
            None => {
                return Err(LogicError::OutOfBounds);
            },
        };
        let mut headers: Vec<(Vec<u8>, Vec<u8>)> = Vec::new();
        let mut i: usize = 0;
        while i < raw.headers.len()
            invariant
                i <= raw.headers@.len(),
                headers@.len() == i,
                forall|j: int|
                    0 <= j < i ==> header_field(#[trigger] raw.headers@[j], buffer, bytes@) == Some(
                        (headers@[j].0@, headers@[j].1@),
                    ),
            decreases raw.headers@.len() - i,
        {
            let slot = &raw.headers[i];
            let (name, value) = match (
                read_field(&slot.name, buffer, bytes),
                read_field(&slot.value, buffer, bytes),
            ) {
                (Some(name), Some(value)) => (name, value),
                _ => {
                    return Err(LogicError::OutOfBounds);
                },
            };
            headers.push((name, value));
            i += 1;
        }
        let parts = Parts { method, uri, version, headers };
        proof {
            assert(parts@.headers =~= Seq::new(
                raw.headers@.len(),
                |j: int| header_field(raw.headers@[j], buffer, bytes@).unwrap(),
            ));
        }
        Ok(parts)
    }

    /// Puts each field to the `http` crate. Fails with `Method` where the
    /// method is refused; else with `Uri` where the target is; else with
    /// `HeaderName` where any header's name is; else with `HeaderValue` where
    /// any header's value is.
    pub fn check(&self) -> (r: Result<(), LogicError>)
        ensures
            r == check_parts(self@),
    {
        let method = method_accepted(self.method.as_slice());
        let uri = uri_accepted(self.uri.as_slice());
        let mut names = true;
        let mut values = true;
        let mut i: usize = 0;
        while i < self.headers.len()
            invariant
                i <= self.headers@.len(),
                names <==> forall|j: int|
                    0 <= j < i ==> accepts_header_name((#[trigger] self@.headers[j]).0),
                values <==> forall|j: int|
                    0 <= j < i ==> accepts_header_value((#[trigger] self@.headers[j]).1),
            decreases self.headers@.len() - i,
        {
            let header = &self.headers[i];
            assert(self@.headers[i as int] == (header.0@, header.1@));
            if !header_name_accepted(header.0.as_slice()) {
                names = false;
            }
            if !header_value_accepted(header.1.as_slice()) {
                values = false;
            }
            i += 1;
        }
        first_refusal(method, uri, names, values)
    }
}

} // verus!
