//! The offset index: a parse result held as offsets into the buffer.
//!
//! A parser that does not copy reports each field as a slice of the buffer it
//! was handed. Between two parse attempts the buffer grows, and growing may
//! move it, so no such slice may be kept. What is kept is, for each field, its
//! distance from the start of the buffer and its length: numbers that stay
//! true of any buffer that holds the same bytes at the same places.

use vstd::prelude::*;
use crate::raw::{
    lemma_populated_from, populated_count, populated_from, RawHeader, RawRequest, RawRequestView,
    RawSlice,
};

verus! {

/// The number of header slots that an index can hold.
pub const MAX_HEADERS: usize = 100;

/// A field of the index: how far from the start of the buffer it begins, and
/// how many bytes it holds.
#[derive(Clone, Copy, Debug, PartialEq, Eq, Structural)]
pub struct Span {
    pub offset: isize,
    pub len: usize,
}

/// The signed distance from `buffer` to `start`, where an `isize` can hold it.
pub open spec fn displacement(buffer: usize, start: usize) -> Option<isize> {
    if isize::MIN <= start - buffer <= isize::MAX {
        Some((start - buffer) as isize)
    } else {
        None
    }
}

/// A slice as an offset from `buffer` and a length.
pub open spec fn relative(buffer: usize, slice: RawSlice) -> Option<Span> {
    match displacement(buffer, slice.start) {
        Some(offset) => Some(Span { offset, len: slice.len }),
        None => None,
    }
}

/// The slice that an offset and a length stand for in a buffer of
/// `buffer_len` bytes that starts at `buffer`: none where they reach outside
/// that buffer, or past the last address.
pub open spec fn absolute(span: Span, buffer: usize, buffer_len: usize) -> Option<
    RawSlice,
> {
    if 0 <= span.offset && span.offset + span.len <= buffer_len && buffer + span.offset + span.len
        <= usize::MAX {
        Some(RawSlice { start: (buffer + span.offset) as usize, len: span.len })
    } else {
        None
    }
}

/// An optional field as an offset and a length; the outer `None` says that the
/// field is present and its distance does not fit.
pub open spec fn relative_field(buffer: usize, field: Option<RawSlice>) -> Option<
    Option<Span>,
> {
    match field {
        None => Some(None),
        Some(slice) => match relative(buffer, slice) {
            Some(span) => Some(Some(span)),
            None => None,
        },
    }
}

/// An optional field as a slice of the buffer; the outer `None` says that the
/// field is present and reaches outside the buffer.
pub open spec fn absolute_field(
    field: Option<Span>,
    buffer: usize,
    buffer_len: usize,
) -> Option<Option<RawSlice>> {
    match field {
        None => Some(None),
        Some(span) => match absolute(span, buffer, buffer_len) {
            Some(slice) => Some(Some(slice)),
            None => None,
        },
    }
}

fn displace(buffer: usize, start: usize) -> (r: Option<isize>)
    ensures
        r == displacement(buffer, start),
{
    if start >= buffer {
        let ahead: usize = start - buffer;
        if ahead <= isize::MAX as usize {
            Some(ahead as isize)
        } else {
            None
        }
    } else {
        let behind: usize = buffer - start;
        if behind <= isize::MAX as usize {
            Some(-(behind as isize))
        } else if behind - 1 == isize::MAX as usize {
            Some(isize::MIN)
        } else {
            None
        }
    }
}

fn to_relative(buffer: usize, slice: &RawSlice) -> (r: Option<Span>)
    ensures
        r == relative(buffer, *slice),
{
    match displace(buffer, slice.start) {
        Some(offset) => Some(Span { offset, len: slice.len }),
        None => None,
    }
}

fn to_absolute(span: Span, buffer: usize, buffer_len: usize) -> (r: Option<RawSlice>)
    ensures
        r == absolute(span, buffer, buffer_len),
{
    let Span { offset, len } = span;
    if offset < 0 {
        return None;
    }
    let ahead: usize = offset as usize;
    if ahead > buffer_len || len > buffer_len - ahead {
        return None;
    }
    if ahead + len > usize::MAX - buffer {
        return None;
    }
    Some(RawSlice { start: buffer + ahead, len })
}

/// One header of the index: name and value, each as offset and length.
#[derive(Clone, Copy, Debug, PartialEq, Eq, Structural)]
pub struct Header {
    pub name: Span,
    pub value: Span,
}

impl Header {
    /// What `from_ref` returns.
    pub open spec fn captured(buffer: usize, header: RawHeader) -> Option<Header> {
        match (relative(buffer, header.name), relative(buffer, header.value)) {
            (Some(name), Some(value)) => Some(Header { name, value }),
            _ => None,
        }
    }

    /// What `as_ref` returns.
    pub open spec fn rebuilt(self, buffer: usize, buffer_len: usize) -> Option<RawHeader> {
        match (
            absolute(self.name, buffer, buffer_len),
            absolute(self.value, buffer, buffer_len),
        ) {
            (Some(name), Some(value)) => Some(RawHeader { name, value }),
            _ => None,
        }
    }

    /// Captures a header slot of the parser as offsets from `buffer`, the
    /// address at which the parsed buffer starts. Fails where a distance does
    /// not fit the index.
    pub fn from_ref(buffer: usize, header: &RawHeader) -> (r: Option<Header>)
        ensures
            r == Header::captured(buffer, *header),
    {
        match (to_relative(buffer, &header.name), to_relative(buffer, &header.value)) {
            (Some(name), Some(value)) => Some(Header { name, value }),
            _ => None,
        }
    }

    /// Rebuilds the parser's header slot against a buffer of `buffer_len`
    /// bytes that starts at `buffer`. Fails where the name or the value
    /// reaches outside that buffer.
    pub fn as_ref(&self, buffer: usize, buffer_len: usize) -> (r: Option<RawHeader>)
        ensures
            r == self.rebuilt(buffer, buffer_len),
    {
        match (
            to_absolute(self.name, buffer, buffer_len),
            to_absolute(self.value, buffer, buffer_len),
        ) {
            (Some(name), Some(value)) => Some(RawHeader { name, value }),
            _ => None,
        }
    }
}

/// The offset index of a request, as far as the parser has matched it.
#[derive(Debug)]
pub struct Request {
    method: Option<Span>,
    path: Option<Span>,
    version: Option<u8>,
    headers: Vec<Header>,
}

/// The mathematical value of a `Request`.
pub struct RequestView {
    pub method: Option<Span>,
    pub path: Option<Span>,
    pub version: Option<u8>,
    pub headers: Seq<Header>,
}

impl View for Request {
    type V = RequestView;

    closed spec fn view(&self) -> RequestView {
        RequestView {
            method: self.method,
            path: self.path,
            version: self.version,
            headers: self.headers@,
        }
    }
}

impl Clone for Request {
    fn clone(&self) -> (r: Request)
        ensures
            r@ == self@,
    {
        proof {
            use_type_invariant(self);
        }
        let headers = self.headers.clone();
        Request { method: self.method, path: self.path, version: self.version, headers }
    }
}

impl RequestView {
    /// The index with nothing matched.
    pub open spec fn empty() -> RequestView {
        RequestView { method: None, path: None, version: None, headers: Seq::empty() }
    }
}

/// The index of a raw request that was parsed out of a buffer starting at
/// `buffer`: the fields that are present and the populated header slots, each
/// as offset and length. There is none where the raw request has more
/// populated slots than an index holds, or a field whose distance from
/// `buffer` does not fit.
pub open spec fn capture(buffer: usize, raw: RawRequestView) -> Option<RequestView> {
    let count = populated_count(raw.headers);
    if count <= MAX_HEADERS && relative_field(buffer, raw.method) is Some && relative_field(
        buffer,
        raw.path,
    ) is Some && (forall|i: int|
        0 <= i < count ==> Header::captured(buffer, #[trigger] raw.headers[i]) is Some) {
        Some(
            RequestView {
                method: relative_field(buffer, raw.method).unwrap(),
                path: relative_field(buffer, raw.path).unwrap(),
                version: raw.version,
                headers: Seq::new(
                    count as nat,
                    |i: int| Header::captured(buffer, raw.headers[i]).unwrap(),
                ),
            },
        )
    } else {
        None
    }
}

/// The raw request that an index stands for in a buffer of `buffer_len` bytes
/// starting at `buffer`. There is none where a field reaches outside that
/// buffer.
pub open spec fn reconstruct(index: RequestView, buffer: usize, buffer_len: usize) -> Option<
    RawRequestView,
> {
    if absolute_field(index.method, buffer, buffer_len) is Some && absolute_field(
        index.path,
        buffer,
        buffer_len,
    ) is Some && (forall|i: int|
        0 <= i < index.headers.len() ==> (#[trigger] index.headers[i]).rebuilt(buffer, buffer_len)
            is Some) {
        Some(
            RawRequestView {
                method: absolute_field(index.method, buffer, buffer_len).unwrap(),
                path: absolute_field(index.path, buffer, buffer_len).unwrap(),
                version: index.version,
                headers: Seq::new(
                    index.headers.len(),
                    |i: int| index.headers[i].rebuilt(buffer, buffer_len).unwrap(),
                ),
            },
        )
    } else {
        None
    }
}

impl RawRequestView {
    /// Field by field, this request read in a buffer that starts at `buffer`
    /// and holds `bytes` has the contents that `other` has in a buffer that
    /// starts at `other_buffer` and holds `other_bytes`.
    pub open spec fn same_contents(
        self,
        buffer: usize,
        bytes: Seq<u8>,
        other: RawRequestView,
        other_buffer: usize,
        other_bytes: Seq<u8>,
    ) -> bool {
        &&& self.version == other.version
        &&& self.method is Some <==> other.method is Some
        &&& self.method is Some ==> self.method.unwrap().contents(buffer, bytes)
            == other.method.unwrap().contents(other_buffer, other_bytes)
        &&& self.path is Some <==> other.path is Some
        &&& self.path is Some ==> self.path.unwrap().contents(buffer, bytes)
            == other.path.unwrap().contents(other_buffer, other_bytes)
        &&& self.headers.len() == other.headers.len()
        &&& forall|i: int|
            0 <= i < self.headers.len() ==> {
                &&& (#[trigger] self.headers[i]).name.contents(buffer, bytes)
                    == other.headers[i].name.contents(other_buffer, other_bytes)
                &&& self.headers[i].value.contents(buffer, bytes)
                    == other.headers[i].value.contents(other_buffer, other_bytes)
            }
    }
}

/// A slice that lies inside a buffer is found again, with the bytes it had,
/// in any buffer that begins with the same bytes, wherever that one starts.
proof fn lemma_slice_growth(
    slice: RawSlice,
    buffer: usize,
    bytes: Seq<u8>,
    moved: usize,
    grown: Seq<u8>,
)
    requires
        slice.within(buffer, bytes.len() as usize),
        bytes.len() <= usize::MAX,
        grown.len() <= usize::MAX,
        moved + grown.len() <= usize::MAX,
        bytes.is_prefix_of(grown),
        relative(buffer, slice) is Some,
    ensures
        absolute(relative(buffer, slice).unwrap(), moved, grown.len() as usize) matches Some(
            found,
        ) && found.contents(moved, grown) == slice.contents(buffer, bytes),
{
}

/// Capture and reconstruction undo each other. Where a raw request that lies
/// inside a buffer has been captured, rebuilding the index against that same
/// buffer gives back every field that is present and every populated header
/// slot at the place it had, and so with the bytes it had.
pub proof fn lemma_capture_reconstruct(
    raw: RawRequestView,
    index: RequestView,
    buffer: usize,
    buffer_len: usize,
)
    requires
        buffer + buffer_len <= usize::MAX,
        raw.within(buffer, buffer_len),
        capture(buffer, raw) == Some(index),
    ensures
        reconstruct(index, buffer, buffer_len) == Some(raw.populated()),
{
    lemma_populated_from(raw.headers, 0);
    assert(reconstruct(index, buffer, buffer_len).unwrap().headers =~= raw.populated().headers);
}

/// An index survives the growth of its buffer. Captured from a raw request
/// that lies inside a buffer holding `bytes` at `buffer`, it can be rebuilt
/// against any buffer that holds the same bytes followed by more, at whatever
/// address `moved` that buffer starts; every field then has the bytes that it
/// had in the first buffer.
pub proof fn lemma_growth_keeps_contents(
    raw: RawRequestView,
    index: RequestView,
    buffer: usize,
    bytes: Seq<u8>,
    moved: usize,
    grown: Seq<u8>,
)
    requires
        bytes.len() <= usize::MAX,
        grown.len() <= usize::MAX,
        moved + grown.len() <= usize::MAX,
        raw.within(buffer, bytes.len() as usize),
        capture(buffer, raw) == Some(index),
        bytes.is_prefix_of(grown),
    ensures
        reconstruct(index, moved, grown.len() as usize) matches Some(again) && again.same_contents(
            moved,
            grown,
            raw.populated(),
            buffer,
            bytes,
        ),
{
    lemma_populated_from(raw.headers, 0);
    if raw.method is Some {
        lemma_slice_growth(raw.method.unwrap(), buffer, bytes, moved, grown);
    }
    if raw.path is Some {
        lemma_slice_growth(raw.path.unwrap(), buffer, bytes, moved, grown);
    }
    assert forall|i: int| 0 <= i < index.headers.len() implies {
        &&& (#[trigger] index.headers[i]).rebuilt(moved, grown.len() as usize) matches Some(found)
        &&& found.name.contents(moved, grown) == raw.headers[i].name.contents(buffer, bytes)
        &&& found.value.contents(moved, grown) == raw.headers[i].value.contents(buffer, bytes)
    } by {
        lemma_slice_growth(raw.headers[i].name, buffer, bytes, moved, grown);
        lemma_slice_growth(raw.headers[i].value, buffer, bytes, moved, grown);
    }
}

impl RequestView {
    /// Every field of the index lies inside a buffer of `buffer_len` bytes:
    /// the index can be rebuilt against such a buffer.
    pub open spec fn fits(self, buffer_len: usize) -> bool {
        reconstruct(self, 0, buffer_len) is Some
    }
}

/// An index that fits a buffer fits every longer one.
pub proof fn lemma_fits_longer(index: RequestView, buffer_len: usize, longer: usize)
    requires
        index.fits(buffer_len),
        buffer_len <= longer,
    ensures
        index.fits(longer),
{
    assert forall|i: int| 0 <= i < index.headers.len() implies (#[trigger] index.headers[i]).rebuilt(
        0,
        longer,
    ) is Some by {
        assert(index.headers[i].rebuilt(0, buffer_len) is Some);
    }
}

/// The capacity of an index is never exceeded and nothing is cut off to keep
/// within it: a raw request with more populated header slots than
/// `MAX_HEADERS` is refused whole, and an index that was captured holds every
/// populated slot of its raw request, in order.
pub proof fn lemma_capture_within_capacity(buffer: usize, raw: RawRequestView)
    ensures
        populated_count(raw.headers) > MAX_HEADERS ==> capture(buffer, raw) is None,
        capture(buffer, raw) matches Some(index) ==> {
            &&& index.headers.len() == populated_count(raw.headers)
            &&& index.headers.len() <= MAX_HEADERS
            &&& forall|i: int|
                0 <= i < index.headers.len() ==> Some(#[trigger] index.headers[i])
                    == Header::captured(buffer, raw.headers[i])
        },
{
    lemma_populated_from(raw.headers, 0);
}

impl Request {
    #[verifier::type_invariant]
    spec fn within_capacity(self) -> bool {
        self.headers@.len() <= MAX_HEADERS
    }

    /// Creates an index with nothing matched.
    pub fn new() -> (r: Request)
        ensures
            r@ == RequestView::empty(),
    {
        Request { method: None, path: None, version: None, headers: Vec::new() }
    }

    /// Captures a raw request as offsets from `buffer`, the address at which
    /// the buffer that was parsed starts. The populated header slots are
    /// counted and kept; the others are left out. Fails, and keeps nothing,
    /// where more slots are populated than the index holds or a distance does
    /// not fit.
    pub fn from_ref(buffer: usize, req: &RawRequest) -> (r: Option<Request>)
        ensures
            r matches Some(index) ==> capture(buffer, req@) == Some(index@),
            r is None ==> capture(buffer, req@) is None,
    {
        let method = match &req.method {
            None => None,
            Some(slice) => match to_relative(buffer, slice) {
                Some(span) => Some(span),
                None => {
                    return None;
                },
            },
        };
        let path = match &req.path {
            None => None,
            Some(slice) => match to_relative(buffer, slice) {
                Some(span) => Some(span),
                None => {
                    return None;
                },
            },
        };
        let mut headers: Vec<Header> = Vec::new();
        let mut i: usize = 0;
        while i < req.headers.len() && req.headers[i].name.len > 0
            invariant
                i <= req.headers@.len(),
                i <= MAX_HEADERS,
                populated_count(req.headers@) == populated_from(req.headers@, i as int),
                headers@.len() == i,
                forall|j: int|
                    0 <= j < i ==> Header::captured(buffer, #[trigger] req.headers@[j]) == Some(
                        headers@[j],
                    ),
            decreases req.headers@.len() - i,
        {
            proof {
                lemma_populated_from(req.headers@, i as int + 1);
            }
            if i == MAX_HEADERS {
                return None;
            }
            match Header::from_ref(buffer, &req.headers[i]) {
                None => {
                    return None;
                },
                Some(header) => {
                    headers.push(header);
                },
            }
            i += 1;
        }
        proof {
            assert(headers@ =~= Seq::new(
                i as nat,
                |j: int| Header::captured(buffer, req.headers@[j]).unwrap(),
            ));
        }
        Some(Request { method, path, version: req.version, headers })
    }

    /// Rebuilds the raw request against a buffer of `buffer_len` bytes that
    /// starts at `buffer`. Every field is checked on the way: the call fails
    /// where one reaches outside that buffer.
    pub fn as_ref(&self, buffer: usize, buffer_len: usize) -> (r: Option<RawRequest>)
        ensures
            r matches Some(raw) ==> reconstruct(self@, buffer, buffer_len) == Some(raw@),
            r is None ==> reconstruct(self@, buffer, buffer_len) is None,
    {
        let method = match self.method {
            None => None,
            Some(span) => match to_absolute(span, buffer, buffer_len) {
                Some(slice) => Some(slice),
                None => {
                    return None;
                },
            },
        };
        let path = match self.path {
            None => None,
            Some(span) => match to_absolute(span, buffer, buffer_len) {
                Some(slice) => Some(slice),
                None => {
                    return None;
                },
            },
        };
        let mut headers: Vec<RawHeader> = Vec::new();
        let mut i: usize = 0;
        while i < self.headers.len()
            invariant
                i <= self.headers@.len(),
                headers@.len() == i,
                forall|j: int|
                    0 <= j < i ==> (#[trigger] self.headers@[j]).rebuilt(buffer, buffer_len)
                        == Some(headers@[j]),
            decreases self.headers@.len() - i,
        {
            match self.headers[i].as_ref(buffer, buffer_len) {
                None => {
                    return None;
                },
                Some(header) => {
                    headers.push(header);
                },
            }
            i += 1;
        }
        proof {
            assert(headers@ =~= Seq::new(
                self.headers@.len(),
                |j: int| self.headers@[j].rebuilt(buffer, buffer_len).unwrap(),
            ));
        }
        Some(RawRequest { method, path, version: self.version, headers })
    }

    /// The method's offset and length, once matched.
    pub fn method(&self) -> (r: Option<Span>)
        ensures
            r == self@.method,
    {
        self.method
    }

    /// The request target's offset and length, once matched.
    pub fn path(&self) -> (r: Option<Span>)
        ensures
            r == self@.path,
    {
        self.path
    }

    /// The minor version, once matched.
    pub fn version(&self) -> (r: Option<u8>)
        ensures
            r == self@.version,
    {
        self.version
    }

    /// The number of populated header slots: never more than `MAX_HEADERS`.
    pub fn header_count(&self) -> (r: usize)
        ensures
            r == self@.headers.len(),
            r <= MAX_HEADERS,
    {
        proof {
            use_type_invariant(self);
        }
        self.headers.len()
    }

    /// The populated header slot at `i`, or nothing at or beyond the count.
    pub fn header(&self, i: usize) -> (r: Option<Header>)
        ensures
            r == if i < self@.headers.len() {
                Some(self@.headers[i as int])
            } else {
                None
            },
    {
        if i < self.headers.len() {
            Some(self.headers[i])
        } else {
            None
        }
    }
}

} // verus!
