use minihttp::request::{ParseError, Request};

#[test]
fn parses_a_plain_get() {
    let req = Request::parse(b"GET / HTTP/1.1\r\n\r\n").unwrap();
    assert_eq!(req.verb, b"GET".to_vec());
    assert_eq!(req.endpoint, b"/".to_vec());
    assert!(req.user_agent.is_none());
    assert!(req.accept_encoding.is_none());
    assert!(req.body.is_none());
}

#[test]
fn rejects_bytes_that_are_not_utf8() {
    let r = Request::parse(&[0xff, 0xfe, 0x20]);
    assert_eq!(r.unwrap_err(), ParseError::DecodeError);
}

#[test]
fn accepts_multibyte_utf8_in_the_head() {
    let req = Request::parse("GET /echo/caf\u{e9} HTTP/1.1\r\n\r\n".as_bytes()).unwrap();
    assert_eq!(req.endpoint, "/echo/caf\u{e9}".as_bytes().to_vec());
}

#[test]
fn rejects_an_overlong_utf8_encoding() {
    // 0xc0 0xaf is an overlong encoding of '/'.
    let r = Request::parse(&[0x47, 0xc0, 0xaf]);
    assert_eq!(r.unwrap_err(), ParseError::DecodeError);
}

#[test]
fn rejects_an_empty_stream() {
    let r = Request::parse(b"");
    assert_eq!(r.unwrap_err(), ParseError::EmptyRequest);
}

#[test]
fn rejects_a_request_line_with_one_token() {
    let r = Request::parse(b"GET\r\n\r\n");
    assert_eq!(r.unwrap_err(), ParseError::MalformedRequestLine);
}

#[test]
fn records_the_two_recognized_headers_trimmed() {
    let bytes = b"GET / HTTP/1.1\r\nUser-Agent:  curl/8.0  \r\nAccept-Encoding: gzip\r\n\r\n";
    let req = Request::parse(bytes).unwrap();
    assert_eq!(req.user_agent.unwrap(), b"curl/8.0".to_vec());
    assert_eq!(req.accept_encoding.unwrap(), b"gzip".to_vec());
}

#[test]
fn a_later_header_occurrence_overwrites_an_earlier_one() {
    let bytes = b"GET / HTTP/1.1\r\nUser-Agent: first\r\nUser-Agent: second\r\n\r\n";
    let req = Request::parse(bytes).unwrap();
    assert_eq!(req.user_agent.unwrap(), b"second".to_vec());
}

#[test]
fn unrecognized_headers_are_parsed_off_and_dropped() {
    let bytes = b"GET / HTTP/1.1\r\nHost: localhost:4221\r\nAccept: */*\r\n\r\n";
    let req = Request::parse(bytes).unwrap();
    assert!(req.user_agent.is_none());
    assert!(req.accept_encoding.is_none());
}

#[test]
fn a_non_empty_tail_becomes_the_body() {
    let bytes = b"POST /files/a.txt HTTP/1.1\r\nContent-Length: 5\r\n\r\nhello";
    let req = Request::parse(bytes).unwrap();
    assert_eq!(req.verb, b"POST".to_vec());
    assert_eq!(req.body.unwrap(), b"hello".to_vec());
}

#[test]
fn an_empty_tail_is_no_body() {
    let req = Request::parse(b"GET / HTTP/1.1\r\nHost: x\r\n\r\n").unwrap();
    assert!(req.body.is_none());
}

#[test]
fn the_body_runs_to_the_end_of_the_input() {
    let bytes = b"POST /files/a.txt HTTP/1.1\r\n\r\nline one\r\n\r\nline two";
    let req = Request::parse(bytes).unwrap();
    assert_eq!(req.body.unwrap(), b"line one\r\n\r\nline two".to_vec());
}

#[test]
fn a_request_line_of_exactly_two_tokens_parses() {
    let req = Request::parse(b"GET /\r\n\r\n").unwrap();
    assert_eq!(req.verb, b"GET".to_vec());
    assert_eq!(req.endpoint, b"/".to_vec());
}

#[test]
fn extra_whitespace_between_tokens_is_skipped() {
    let req = Request::parse(b"GET    /echo/hi   HTTP/1.1\r\n\r\n").unwrap();
    assert_eq!(req.verb, b"GET".to_vec());
    assert_eq!(req.endpoint, b"/echo/hi".to_vec());
}

#[test]
fn head_lines_split_on_bare_newlines_too() {
    let req = Request::parse(b"GET / HTTP/1.1\nUser-Agent: y\n\r\n\r\n").unwrap();
    assert_eq!(req.user_agent.unwrap(), b"y".to_vec());
}
