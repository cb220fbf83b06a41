use future_http::error::{ErrorKind, LogicError, ReadError};
use future_http::parts::{first_refusal, http_version, Parts, Version};
use future_http::raw::{RawHeader, RawRequest, RawSlice};
use future_http::ReadRequest;

fn slice(start: usize, len: usize) -> RawSlice {
    RawSlice { start, len }
}

const HEAD: &[u8] = b"GET /index.html HTTP/1.1\r\nHost: example.com\r\nAccept: */*\r\n\r\n";

fn sample(base: usize) -> RawRequest {
    RawRequest {
        method: Some(slice(base, 3)),
        path: Some(slice(base + 4, 11)),
        version: Some(1),
        headers: vec![
            RawHeader { name: slice(base + 26, 4), value: slice(base + 32, 11) },
            RawHeader { name: slice(base + 45, 6), value: slice(base + 53, 3) },
        ],
    }
}

fn parts(method: &[u8], uri: &[u8], headers: &[(&[u8], &[u8])]) -> Parts {
    Parts {
        method: method.to_vec(),
        uri: uri.to_vec(),
        version: Version::Http11,
        headers: headers.iter().map(|(name, value)| (name.to_vec(), value.to_vec())).collect(),
    }
}

fn logic(result: Result<Parts, ReadError>) -> LogicError {
    match result {
        Err(ReadError::Logic(fault)) => fault,
        other => panic!("no logic error: {:?}", other),
    }
}

#[test]
fn version_tags_are_mapped() {
    assert_eq!(http_version(0), Ok(Version::Http10));
    assert_eq!(http_version(1), Ok(Version::Http11));
}

#[test]
fn unknown_version_tag_is_refused() {
    assert_eq!(http_version(2), Err(LogicError::Version(2)));
    assert_eq!(http_version(255), Err(LogicError::Version(255)));
}

#[test]
fn fields_are_read_byte_for_byte() {
    let read = Parts::read(&sample(9000), 9000, HEAD).unwrap();
    assert_eq!(read.method, b"GET");
    assert_eq!(read.uri, b"/index.html");
    assert_eq!(read.version, Version::Http11);
    assert_eq!(
        read.headers,
        vec![(b"Host".to_vec(), b"example.com".to_vec()), (b"Accept".to_vec(), b"*/*".to_vec())]
    );
}

#[test]
fn version_zero_is_http_1_0() {
    let mut raw = sample(0);
    raw.version = Some(0);
    assert_eq!(Parts::read(&raw, 0, HEAD).unwrap().version, Version::Http10);
}

#[test]
fn absent_field_is_incomplete() {
    let mut raw = sample(0);
    raw.method = None;
    assert_eq!(Parts::read(&raw, 0, HEAD), Err(LogicError::Incomplete));
    let mut raw = sample(0);
    raw.path = None;
    assert_eq!(Parts::read(&raw, 0, HEAD), Err(LogicError::Incomplete));
    let mut raw = sample(0);
    raw.version = None;
    assert_eq!(Parts::read(&raw, 0, HEAD), Err(LogicError::Incomplete));
}

#[test]
fn unknown_version_is_reported_with_its_tag() {
    let mut raw = sample(0);
    raw.version = Some(9);
    assert_eq!(Parts::read(&raw, 0, HEAD), Err(LogicError::Version(9)));
}

#[test]
fn absence_is_reported_before_the_version() {
    let mut raw = sample(0);
    raw.version = Some(9);
    raw.path = None;
    assert_eq!(Parts::read(&raw, 0, HEAD), Err(LogicError::Incomplete));
}

#[test]
fn field_outside_the_buffer_is_out_of_bounds() {
    assert_eq!(Parts::read(&sample(0), 1, HEAD), Err(LogicError::OutOfBounds));
    assert_eq!(Parts::read(&sample(0), 0, &HEAD[..55]), Err(LogicError::OutOfBounds));
    let mut raw = sample(0);
    raw.headers[1].value = slice(53, 100);
    assert_eq!(Parts::read(&raw, 0, HEAD), Err(LogicError::OutOfBounds));
    assert!(Parts::read(&sample(0), 0, &HEAD[..56]).is_ok());
}

#[test]
fn version_is_reported_before_bounds() {
    let mut raw = sample(0);
    raw.version = Some(3);
    assert_eq!(Parts::read(&raw, 1, HEAD), Err(LogicError::Version(3)));
}

#[test]
fn every_slot_is_read_and_none_is_an_end_mark() {
    let mut raw = sample(0);
    raw.headers.insert(1, RawHeader { name: slice(0, 0), value: slice(0, 0) });
    let read = Parts::read(&raw, 0, HEAD).unwrap();
    assert_eq!(read.headers.len(), 3);
    assert_eq!(read.headers[1], (Vec::new(), Vec::new()));
    assert_eq!(read.headers[2], (b"Accept".to_vec(), b"*/*".to_vec()));
}

#[test]
fn duplicate_headers_are_kept_in_order() {
    let bytes = b"GET / HTTP/1.1\r\nA: 1\r\nB: 2\r\nA: 3\r\n\r\n";
    let raw = RawRequest {
        method: Some(slice(0, 3)),
        path: Some(slice(4, 1)),
        version: Some(1),
        headers: vec![
            RawHeader { name: slice(16, 1), value: slice(19, 1) },
            RawHeader { name: slice(22, 1), value: slice(25, 1) },
            RawHeader { name: slice(28, 1), value: slice(31, 1) },
        ],
    };
    let typed = ReadRequest::attempt_type(&raw, 0, bytes).unwrap();
    assert_eq!(
        typed.headers,
        vec![
            (b"A".to_vec(), b"1".to_vec()),
            (b"B".to_vec(), b"2".to_vec()),
            (b"A".to_vec(), b"3".to_vec())
        ]
    );
}

#[test]
fn sound_parts_pass_the_check() {
    assert_eq!(parts(b"GET", b"/index.html", &[(b"Host", b"example.com")]).check(), Ok(()));
    assert_eq!(parts(b"PROPFIND", b"*", &[]).check(), Ok(()));
    assert_eq!(parts(b"POST", b"http://example.com/a?b=c", &[(b"x-empty", b"")]).check(), Ok(()));
}

#[test]
fn method_is_put_to_the_http_crate() {
    assert_eq!(parts(b"", b"/", &[]).check(), Err(LogicError::Method));
    assert_eq!(parts(b"G T", b"/", &[]).check(), Err(LogicError::Method));
    assert_eq!(parts(b"GET\n", b"/", &[]).check(), Err(LogicError::Method));
}

#[test]
fn target_is_put_to_the_http_crate() {
    assert_eq!(parts(b"GET", b"", &[]).check(), Err(LogicError::Uri));
    assert_eq!(parts(b"GET", b"/a b", &[]).check(), Err(LogicError::Uri));
}

#[test]
fn header_name_is_put_to_the_http_crate() {
    assert_eq!(parts(b"GET", b"/", &[(b"", b"v")]).check(), Err(LogicError::HeaderName));
    assert_eq!(parts(b"GET", b"/", &[(b"a b", b"v")]).check(), Err(LogicError::HeaderName));
    assert_eq!(
        parts(b"GET", b"/", &[(b"ok", b"v"), (b"not:ok", b"v")]).check(),
        Err(LogicError::HeaderName)
    );
}

#[test]
fn header_value_is_put_to_the_http_crate() {
    assert_eq!(parts(b"GET", b"/", &[(b"a", b"v\n")]).check(), Err(LogicError::HeaderValue));
    assert_eq!(parts(b"GET", b"/", &[(b"a", b"\x7f")]).check(), Err(LogicError::HeaderValue));
    assert_eq!(parts(b"GET", b"/", &[(b"a", b"\x1f")]).check(), Err(LogicError::HeaderValue));
    assert_eq!(parts(b"GET", b"/", &[(b"a", b"\x00")]).check(), Err(LogicError::HeaderValue));
}

#[test]
fn header_value_may_hold_tab_space_and_high_bytes() {
    assert_eq!(parts(b"GET", b"/", &[(b"a", b"\t \x20~\x80\xff")]).check(), Ok(()));
}

#[test]
fn refusals_are_reported_in_order() {
    assert_eq!(parts(b"", b"", &[(b"", b"\n")]).check(), Err(LogicError::Method));
    assert_eq!(parts(b"GET", b"", &[(b"", b"\n")]).check(), Err(LogicError::Uri));
    assert_eq!(parts(b"GET", b"/", &[(b"a", b"\n"), (b"", b"v")]).check(), Err(LogicError::HeaderName));
    assert_eq!(parts(b"GET", b"/", &[(b"a", b"v"), (b"b", b"\n")]).check(), Err(LogicError::HeaderValue));
}

#[test]
fn raw_request_is_typed() {
    let typed = ReadRequest::attempt_type(&sample(4096), 4096, HEAD).unwrap();
    assert_eq!(
        typed,
        parts(b"GET", b"/index.html", &[(b"Host", b"example.com"), (b"Accept", b"*/*")])
    );
}

#[test]
fn typing_fails_with_a_logic_error() {
    let mut raw = sample(0);
    raw.version = Some(4);
    assert_eq!(logic(ReadRequest::attempt_type(&raw, 0, HEAD)), LogicError::Version(4));
    let mut raw = sample(0);
    raw.method = None;
    assert_eq!(logic(ReadRequest::attempt_type(&raw, 0, HEAD)), LogicError::Incomplete);
    assert_eq!(logic(ReadRequest::attempt_type(&sample(8), 0, HEAD)), LogicError::OutOfBounds);
    let mut raw = sample(0);
    raw.method = Some(slice(0, 4));
    assert_eq!(logic(ReadRequest::attempt_type(&raw, 0, HEAD)), LogicError::Method);
    let mut raw = sample(0);
    raw.path = Some(slice(3, 12));
    assert_eq!(logic(ReadRequest::attempt_type(&raw, 0, HEAD)), LogicError::Uri);
    let mut raw = sample(0);
    raw.headers[0].name = slice(26, 5);
    assert_eq!(logic(ReadRequest::attempt_type(&raw, 0, HEAD)), LogicError::HeaderName);
    let mut raw = sample(0);
    raw.headers[1].value = slice(53, 5);
    assert_eq!(logic(ReadRequest::attempt_type(&raw, 0, HEAD)), LogicError::HeaderValue);
}

#[test]
fn kind_of_a_logic_error_names_the_fault() {
    let e = ReadError::Logic(LogicError::Uri);
    assert_eq!(e.kind(), ErrorKind::Logic(LogicError::Uri));
    assert_eq!(ReadError::from(LogicError::Version(5)).kind(), ErrorKind::Logic(LogicError::Version(5)));
}

#[test]
fn first_refusal_goes_by_rank() {
    assert_eq!(first_refusal(true, true, true, true), Ok(()));
    assert_eq!(first_refusal(false, true, true, true), Err(LogicError::Method));
    assert_eq!(first_refusal(false, false, false, false), Err(LogicError::Method));
    assert_eq!(first_refusal(true, false, true, true), Err(LogicError::Uri));
    assert_eq!(first_refusal(true, false, false, false), Err(LogicError::Uri));
    assert_eq!(first_refusal(true, true, false, true), Err(LogicError::HeaderName));
    assert_eq!(first_refusal(true, true, false, false), Err(LogicError::HeaderName));
    assert_eq!(first_refusal(true, true, true, false), Err(LogicError::HeaderValue));
}
