//! What the request parser reports: each field as a place in memory.
//!
//! A parser that does not copy hands back slices of the buffer it was given.
//! Here such a slice is the address of its first byte and its length, so that
//! it stays a plain value when the buffer it points into has moved.

use vstd::prelude::*;
use vstd::slice::slice_subrange;

verus! {

/// A run of bytes in memory: the address of its first byte, and its length.
#[derive(Clone, Copy, Debug, PartialEq, Eq, Structural)]
pub struct RawSlice {
    pub start: usize,
    pub len: usize,
}

impl RawSlice {
    /// The run lies inside a buffer of `buffer_len` bytes that starts at `buffer`.
    pub open spec fn within(self, buffer: usize, buffer_len: usize) -> bool {
        buffer <= self.start && self.start + self.len <= buffer + buffer_len
    }

    /// The bytes of the run, in a buffer that starts at `buffer` and holds `bytes`.
    pub open spec fn contents(self, buffer: usize, bytes: Seq<u8>) -> Seq<u8> {
        bytes.subrange(self.start - buffer, self.start - buffer + self.len)
    }

    /// Reads the run out of a buffer that starts at `buffer`, or nothing where
    /// the run does not lie inside that buffer.
    pub fn read<'a>(&self, buffer: usize, bytes: &'a [u8]) -> (r: Option<&'a [u8]>)
        ensures
            r is Some <==> self.within(buffer, bytes@.len() as usize),
            r matches Some(found) ==> found@ == self.contents(buffer, bytes@),
    {
        if self.start < buffer {
            return None;
        }
        let offset: usize = self.start - buffer;
        if offset > bytes.len() || self.len > bytes.len() - offset {
            return None;
        }
        Some(slice_subrange(bytes, offset, offset + self.len))
    }
}

/// One slot of the parser's header array.
#[derive(Clone, Copy, Debug, PartialEq, Eq, Structural)]
pub struct RawHeader {
    pub name: RawSlice,
    pub value: RawSlice,
}

impl RawHeader {
    /// A slot that the parser has filled: a header's name is never empty, and
    /// a slot that was not written keeps an empty one.
    pub open spec fn populated(self) -> bool {
        self.name.len > 0
    }

    /// Both runs lie inside the buffer.
    pub open spec fn within(self, buffer: usize, buffer_len: usize) -> bool {
        self.name.within(buffer, buffer_len) && self.value.within(buffer, buffer_len)
    }
}

/// The first slot at or after `from` that is not populated, or the number of
/// slots where all of them are.
pub open spec fn populated_from(slots: Seq<RawHeader>, from: int) -> int
    decreases slots.len() - from,
{
    if 0 <= from < slots.len() && slots[from].populated() {
        populated_from(slots, from + 1)
    } else {
        from
    }
}

/// How many slots the parser has filled: the populated ones stand first.
pub open spec fn populated_count(slots: Seq<RawHeader>) -> int {
    populated_from(slots, 0)
}

/// `populated_from` stops inside the array, behind populated slots only and
/// in front of one that is not.
pub proof fn lemma_populated_from(slots: Seq<RawHeader>, from: int)
    requires
        0 <= from <= slots.len(),
    ensures
        from <= populated_from(slots, from) <= slots.len(),
        forall|i: int| from <= i < populated_from(slots, from) ==> (#[trigger] slots[i]).populated(),
        populated_from(slots, from) < slots.len() ==> !slots[populated_from(slots, from)].populated(),
    decreases slots.len() - from,
{
    if from < slots.len() && slots[from].populated() {
        lemma_populated_from(slots, from + 1);
    }
}

/// A request as the parser leaves it, complete or not.
#[derive(Clone, Debug, PartialEq, Eq)]
pub struct RawRequest {
    /// The method, once the parser has matched it.
    pub method: Option<RawSlice>,
    /// The request target, once matched.
    pub path: Option<RawSlice>,
    /// The minor version, once matched: 0 for HTTP/1.0, 1 for HTTP/1.1.
    pub version: Option<u8>,
    /// The header slots, populated ones first.
    pub headers: Vec<RawHeader>,
}

/// The mathematical value of a `RawRequest`.
pub struct RawRequestView {
    pub method: Option<RawSlice>,
    pub path: Option<RawSlice>,
    pub version: Option<u8>,
    pub headers: Seq<RawHeader>,
}

impl View for RawRequest {
    type V = RawRequestView;

    open spec fn view(&self) -> RawRequestView {
        RawRequestView {
            method: self.method,
            path: self.path,
            version: self.version,
            headers: self.headers@,
        }
    }
}

impl RawRequestView {
    /// Every field that is present, and every populated slot, lies inside the buffer.
    pub open spec fn within(self, buffer: usize, buffer_len: usize) -> bool {
        &&& self.method matches Some(m) ==> m.within(buffer, buffer_len)
        &&& self.path matches Some(p) ==> p.within(buffer, buffer_len)
        &&& forall|i: int|
            0 <= i < populated_count(self.headers) ==> (#[trigger] self.headers[i]).within(
                buffer,
                buffer_len,
            )
    }

    /// The same request without the slots that the parser has not filled.
    pub open spec fn populated(self) -> RawRequestView {
        RawRequestView { headers: self.headers.take(populated_count(self.headers)), ..self }
    }
}

} // verus!
