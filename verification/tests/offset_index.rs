use future_http::buffer::{Header, Request, Span, MAX_HEADERS};
use future_http::raw::{RawHeader, RawRequest, RawSlice};

fn slice(start: usize, len: usize) -> RawSlice {
    RawSlice { start, len }
}

fn slot(name: (usize, usize), value: (usize, usize)) -> RawHeader {
    RawHeader { name: slice(name.0, name.1), value: slice(value.0, value.1) }
}

/// "GET /index.html HTTP/1.1\r\nHost: example.com\r\n\r\n" as a parser would
/// report it from a buffer at `base`.
fn sample(base: usize) -> RawRequest {
    RawRequest {
        method: Some(slice(base, 3)),
        path: Some(slice(base + 4, 11)),
        version: Some(1),
        headers: vec![slot((base + 26, 4), (base + 32, 11))],
    }
}

#[test]
fn new_index_is_empty() {
    let index = Request::new();
    assert_eq!(index.method(), None);
    assert_eq!(index.path(), None);
    assert_eq!(index.version(), None);
    assert_eq!(index.header_count(), 0);
    assert_eq!(index.header(0), None);
}

#[test]
fn header_is_captured_as_offsets() {
    let header = Header::from_ref(1000, &slot((1026, 4), (1032, 11))).unwrap();
    assert_eq!(header.name, Span { offset: 26, len: 4 });
    assert_eq!(header.value, Span { offset: 32, len: 11 });
}

#[test]
fn offsets_before_the_buffer_are_negative() {
    let header = Header::from_ref(2000, &slot((1990, 4), (2000, 0))).unwrap();
    assert_eq!(header.name, Span { offset: -10, len: 4 });
    assert_eq!(header.value, Span { offset: 0, len: 0 });
}

#[test]
fn distance_that_does_not_fit_is_refused() {
    assert_eq!(Header::from_ref(0, &slot((usize::MAX, 1), (0, 0))), None);
    assert_eq!(Header::from_ref(usize::MAX, &slot((10, 1), (0, 1))), None);
    let far = isize::MAX as usize;
    let kept = Header::from_ref(0, &slot((far, 1), (far, 0))).unwrap();
    assert_eq!(kept.name.offset, isize::MAX);
    assert_eq!(Header::from_ref(0, &slot((far + 1, 1), (0, 0))), None);
    let behind = Header::from_ref(far + 1, &slot((0, 1), (0, 0))).unwrap();
    assert_eq!(behind.name.offset, isize::MIN);
}

#[test]
fn header_is_rebuilt_at_the_new_base() {
    let header = Header { name: Span { offset: 26, len: 4 }, value: Span { offset: 32, len: 11 } };
    assert_eq!(header.as_ref(5000, 45), Some(slot((5026, 4), (5032, 11))));
}

#[test]
fn header_must_end_inside_the_buffer() {
    let header = Header { name: Span { offset: 26, len: 4 }, value: Span { offset: 32, len: 11 } };
    assert_eq!(header.as_ref(0, 43), Some(slot((26, 4), (32, 11))));
    assert_eq!(header.as_ref(0, 42), None);
    assert_eq!(header.as_ref(0, 0), None);
}

#[test]
fn negative_offset_is_not_rebuilt() {
    let header = Header { name: Span { offset: -1, len: 1 }, value: Span { offset: 0, len: 0 } };
    assert_eq!(header.as_ref(100, 50), None);
}

#[test]
fn address_past_the_last_one_is_not_rebuilt() {
    let header = Header { name: Span { offset: 2, len: 4 }, value: Span { offset: 0, len: 0 } };
    assert_eq!(header.as_ref(usize::MAX - 5, 10), None);
    assert_eq!(header.as_ref(usize::MAX - 6, 10), Some(slot((usize::MAX - 4, 4), (usize::MAX - 6, 0))));
}

#[test]
fn empty_field_at_the_end_of_the_buffer_is_rebuilt() {
    let header = Header { name: Span { offset: 3, len: 2 }, value: Span { offset: 5, len: 0 } };
    assert_eq!(header.as_ref(10, 5), Some(slot((13, 2), (15, 0))));
}

#[test]
fn request_is_captured_as_offsets() {
    let index = Request::from_ref(7000, &sample(7000)).unwrap();
    assert_eq!(index.method(), Some(Span { offset: 0, len: 3 }));
    assert_eq!(index.path(), Some(Span { offset: 4, len: 11 }));
    assert_eq!(index.version(), Some(1));
    assert_eq!(index.header_count(), 1);
    assert_eq!(
        index.header(0),
        Some(Header { name: Span { offset: 26, len: 4 }, value: Span { offset: 32, len: 11 } })
    );
    assert_eq!(index.header(1), None);
}

#[test]
fn capture_then_reconstruct_gives_the_raw_request_back() {
    let raw = sample(7000);
    let index = Request::from_ref(7000, &raw).unwrap();
    assert_eq!(index.as_ref(7000, 45), Some(raw));
}

#[test]
fn index_follows_a_buffer_that_has_grown_and_moved() {
    let head = b"GET /index.html HTTP/1.1\r\nHost: example.com\r\n\r\n";
    let mut grown = head.to_vec();
    grown.extend_from_slice(b"and a body that came later");
    let index = Request::from_ref(7000, &sample(7000)).unwrap();
    let moved = index.as_ref(123_456, grown.len()).unwrap();
    assert_eq!(moved, sample(123_456));
    let method = moved.method.unwrap().read(123_456, &grown).unwrap();
    assert_eq!(method, b"GET");
    let path = moved.path.unwrap().read(123_456, &grown).unwrap();
    assert_eq!(path, b"/index.html");
    assert_eq!(moved.headers[0].name.read(123_456, &grown).unwrap(), b"Host");
    assert_eq!(moved.headers[0].value.read(123_456, &grown).unwrap(), b"example.com");
}

#[test]
fn index_is_refused_by_a_buffer_that_is_too_short() {
    let index = Request::from_ref(7000, &sample(7000)).unwrap();
    assert_eq!(index.as_ref(7000, 42), None);
    assert_eq!(index.as_ref(7000, 3), None);
    assert!(index.as_ref(7000, 43).is_some());
}

#[test]
fn unpopulated_slots_are_left_out() {
    let mut raw = sample(500);
    raw.headers.push(slot((9, 0), (9, 0)));
    raw.headers.push(slot((540, 2), (543, 1)));
    let index = Request::from_ref(500, &raw).unwrap();
    assert_eq!(index.header_count(), 1);
    let rebuilt = index.as_ref(500, 45).unwrap();
    assert_eq!(rebuilt, sample(500));
}

#[test]
fn unpopulated_slot_may_lie_anywhere() {
    let mut raw = sample(usize::MAX - 100);
    raw.headers.push(slot((0, 0), (0, 0)));
    let index = Request::from_ref(usize::MAX - 100, &raw).unwrap();
    assert_eq!(index.header_count(), 1);
}

#[test]
fn partial_request_is_captured() {
    let raw = RawRequest { method: Some(slice(64, 3)), path: None, version: None, headers: Vec::new() };
    let index = Request::from_ref(64, &raw).unwrap();
    assert_eq!(index.method(), Some(Span { offset: 0, len: 3 }));
    assert_eq!(index.path(), None);
    assert_eq!(index.version(), None);
    assert_eq!(index.header_count(), 0);
    assert_eq!(index.as_ref(64, 3), Some(raw));
}

#[test]
fn index_holds_as_many_headers_as_its_capacity() {
    let mut raw = sample(0);
    raw.headers = (0..MAX_HEADERS).map(|i| slot((100 + 10 * i, 4), (105 + 10 * i, 3))).collect();
    let index = Request::from_ref(0, &raw).unwrap();
    assert_eq!(index.header_count(), 100);
    assert_eq!(
        index.header(99),
        Some(Header { name: Span { offset: 1090, len: 4 }, value: Span { offset: 1095, len: 3 } })
    );
    assert_eq!(index.as_ref(0, 2000), Some(raw));
}

#[test]
fn more_headers_than_the_capacity_are_refused_whole() {
    let mut raw = sample(0);
    raw.headers = (0..MAX_HEADERS + 1).map(|i| slot((100 + 10 * i, 4), (105 + 10 * i, 3))).collect();
    assert!(Request::from_ref(0, &raw).is_none());
}

#[test]
fn field_too_far_from_the_buffer_fails_the_capture() {
    let mut raw = sample(0);
    raw.path = Some(slice(usize::MAX, 0));
    assert!(Request::from_ref(0, &raw).is_none());
    let mut raw = sample(0);
    raw.headers[0].value = slice(usize::MAX, 0);
    assert!(Request::from_ref(0, &raw).is_none());
}

#[test]
fn clone_of_an_index_is_equal_to_it() {
    let index = Request::from_ref(7000, &sample(7000)).unwrap();
    let copy = index.clone();
    assert_eq!(copy.method(), index.method());
    assert_eq!(copy.path(), index.path());
    assert_eq!(copy.version(), index.version());
    assert_eq!(copy.header_count(), index.header_count());
    assert_eq!(copy.header(0), index.header(0));
}

#[test]
fn slice_is_read_out_of_its_buffer() {
    let bytes = b"0123456789";
    assert_eq!(slice(103, 4).read(100, bytes).unwrap(), b"3456");
    assert_eq!(slice(100, 10).read(100, bytes).unwrap(), b"0123456789");
    assert_eq!(slice(110, 0).read(100, bytes).unwrap(), b"");
}

#[test]
fn slice_outside_its_buffer_is_not_read() {
    let bytes = b"0123456789";
    assert_eq!(slice(99, 4).read(100, bytes), None);
    assert_eq!(slice(107, 4).read(100, bytes), None);
    assert_eq!(slice(111, 0).read(100, bytes), None);
    assert_eq!(slice(usize::MAX, usize::MAX).read(100, bytes), None);
}
