//! The request parser of the `httparse` crate, behind one trusted call.

use vstd::prelude::*;
use httparse::{Request, Status, EMPTY_HEADER};
use crate::buffer::{capture, RequestView, MAX_HEADERS};
use crate::raw::{RawHeader, RawRequest, RawSlice};

verus! {

/// `httparse::Error`, carried from the parser to the caller unread.
#[verifier::external_type_specification]
#[verifier::external_body]
pub struct ExSyntaxError(httparse::Error);

/// What one parse attempt reports.
#[derive(Debug)]
pub struct RawParse {
    /// The place of the buffer that was parsed.
    pub buffer: RawSlice,
    /// The length of the request head, where the buffer holds all of it.
    pub complete: Option<usize>,
    /// What the parser has matched, as places in memory.
    pub request: RawRequest,
}

/// What the parser makes of given bytes, in numbers that do not depend on
/// where the bytes lie in memory.
pub enum ParseOutcome {
    /// The bytes cannot begin a request.
    Rejected,
    /// The bytes begin a request. `complete` is the length of its head where
    /// the bytes hold all of it; `index` is what was matched, as offsets into
    /// the bytes.
    Matched { complete: Option<usize>, index: RequestView },
}

/// The outcome of parsing `bytes` as the beginning of a request, with room for
/// `MAX_HEADERS` headers.
pub uninterp spec fn parse_outcome(bytes: Seq<u8>) -> ParseOutcome;

/// Runs `httparse::Request::parse` on `buf` with a fresh array of
/// `MAX_HEADERS` empty header slots, and reports what the parser has left in
/// the request: each slice as the address of its first byte and its length.
///
/// Trusted: the parser's error is returned exactly where `parse_outcome` says
/// that the bytes are rejected. Otherwise what came back, captured relative to
/// the reported base address, is the index that `parse_outcome` names, and the
/// reported length of the head is the one it names. This rests on the parser
/// being a function of the bytes alone, on every slice that it reports lying
/// inside `buf`, and on a slot that it has not written keeping its empty name.
#[verifier::external_body]
pub(crate) fn parse_head(buf: &[u8]) -> (r: Result<RawParse, httparse::Error>)
    ensures
        r matches Ok(parsed) ==> capture(parsed.buffer.start, parsed.request@) matches Some(index)
            && parse_outcome(buf@) == (ParseOutcome::Matched { complete: parsed.complete, index }),
        r is Err ==> parse_outcome(buf@) == ParseOutcome::Rejected,
{
    let mut slots = [EMPTY_HEADER; MAX_HEADERS];
    let mut req = Request::new(&mut slots);
    let complete = match req.parse(buf)? {
        Status::Complete(n) => Some(n),
        Status::Partial => None,
    };
    let at = |s: &[u8]| RawSlice { start: s.as_ptr() as usize, len: s.len() };
    let request = RawRequest {
        method: req.method.map(str::as_bytes).map(at),
        path: req.path.map(str::as_bytes).map(at),
        version: req.version,
        headers: req.headers.iter().map(|h| RawHeader { name: at(h.name.as_bytes()), value: at(h.value) }).collect(),
    };
    Ok(RawParse { buffer: at(buf), complete, request })
}

} // verus!
