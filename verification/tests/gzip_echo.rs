use std::io::Read;

use minihttp::handlers::{dispatch, Action};
use minihttp::request::Request;
use minihttp::response::{frame, MediaType, Status};

fn contains(haystack: &[u8], needle: &[u8]) -> bool {
    haystack.windows(needle.len()).any(|w| w == needle)
}

#[test]
fn echo_negotiates_gzip_and_the_body_decompresses() {
    let req = Request::parse(b"GET /echo/abc HTTP/1.1\r\nAccept-Encoding: gzip\r\n\r\n").unwrap();
    let resp = match dispatch(&req) {
        Action::Respond(resp) => resp,
        _ => panic!("expected a finished response"),
    };
    assert_eq!(resp.status, Status::Ok200);
    let content = resp.content.as_ref().unwrap();
    assert_eq!(content.media, MediaType::TextPlain);
    assert!(content.gzip);
    // A gzip stream is not the raw value handed back unchanged.
    assert_ne!(content.body, b"abc".to_vec());

    let mut decoder = flate2::read::GzDecoder::new(content.body.as_slice());
    let mut decompressed = Vec::new();
    decoder.read_to_end(&mut decompressed).unwrap();
    assert_eq!(decompressed, b"abc".to_vec());

    // The frame declares the compressed length, not the raw length of 3.
    let out = frame(&resp);
    assert!(contains(&out, b"Content-Encoding: gzip\r\n"));
    let declared = format!("Content-Length: {}\r\n", content.body.len());
    assert!(contains(&out, declared.as_bytes()));
    assert!(!contains(&out, b"Content-Length: 3\r\n"));
    // The body bytes follow the blank line verbatim.
    assert!(out.ends_with(content.body.as_slice()));
}

#[test]
fn gzip_needs_only_a_substring_match() {
    let bytes = b"GET /echo/abc HTTP/1.1\r\nAccept-Encoding: deflate, gzip, br\r\n\r\n";
    let req = Request::parse(bytes).unwrap();
    let resp = match dispatch(&req) {
        Action::Respond(resp) => resp,
        _ => panic!("expected a finished response"),
    };
    assert!(resp.content.unwrap().gzip);
}

#[test]
fn other_encodings_leave_the_body_raw() {
    let bytes = b"GET /echo/abc HTTP/1.1\r\nAccept-Encoding: deflate\r\n\r\n";
    let req = Request::parse(bytes).unwrap();
    let resp = match dispatch(&req) {
        Action::Respond(resp) => resp,
        _ => panic!("expected a finished response"),
    };
    let content = resp.content.unwrap();
    assert!(!content.gzip);
    assert_eq!(content.body, b"abc".to_vec());
}
