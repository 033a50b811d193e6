use minihttp::handlers::{dispatch, file_read_result, file_write_result, Action};
use minihttp::request::Request;
use minihttp::response::frame;

fn respond(bytes: &[u8]) -> Vec<u8> {
    let req = Request::parse(bytes).unwrap();
    match dispatch(&req) {
        Action::Respond(resp) => frame(&resp),
        other => panic!("expected a finished response, got {}", describe(&other)),
    }
}

fn describe(a: &Action) -> &'static str {
    match a {
        Action::Respond(_) => "a response",
        Action::ReadFile(_) => "a file read",
        Action::WriteFile(_, _) => "a file write",
    }
}

#[test]
fn root_is_a_bare_200() {
    assert_eq!(respond(b"GET / HTTP/1.1\r\n\r\n"), b"HTTP/1.1 200 OK\r\n\r\n".to_vec());
}

#[test]
fn echo_reflects_the_value_with_its_length() {
    let out = respond(b"GET /echo/abc HTTP/1.1\r\n\r\n");
    let expected = b"HTTP/1.1 200 OK\r\nContent-Type: text/plain\r\nContent-Length: 3\r\n\r\nabc";
    assert_eq!(out, expected.to_vec());
}

#[test]
fn echo_of_an_empty_value_is_404() {
    assert_eq!(respond(b"GET /echo/ HTTP/1.1\r\n\r\n"), b"HTTP/1.1 404 Not Found\r\n\r\n".to_vec());
}

#[test]
fn echo_of_a_value_with_a_slash_is_404() {
    assert_eq!(
        respond(b"GET /echo/a/b HTTP/1.1\r\n\r\n"),
        b"HTTP/1.1 404 Not Found\r\n\r\n".to_vec(),
    );
}

#[test]
fn an_unknown_path_is_404() {
    assert_eq!(
        respond(b"GET /nothing/here HTTP/1.1\r\n\r\n"),
        b"HTTP/1.1 404 Not Found\r\n\r\n".to_vec(),
    );
}

#[test]
fn user_agent_reflects_the_header() {
    let out = respond(b"GET /user-agent HTTP/1.1\r\nUser-Agent: curl/8.0\r\n\r\n");
    let expected =
        b"HTTP/1.1 200 OK\r\nContent-Type: text/plain\r\nContent-Length: 8\r\n\r\ncurl/8.0";
    assert_eq!(out, expected.to_vec());
}

#[test]
fn user_agent_without_the_header_is_404() {
    assert_eq!(
        respond(b"GET /user-agent HTTP/1.1\r\n\r\n"),
        b"HTTP/1.1 404 Not Found\r\n\r\n".to_vec(),
    );
}

#[test]
fn a_file_round_trip_through_the_decisions() {
    let post = Request::parse(b"POST /files/test.txt HTTP/1.1\r\nContent-Length: 5\r\n\r\nhello")
        .unwrap();
    let (name, body) = match dispatch(&post) {
        Action::WriteFile(name, body) => (name, body),
        other => panic!("expected a file write, got {}", describe(&other)),
    };
    assert_eq!(name, b"test.txt".to_vec());
    assert_eq!(body, b"hello".to_vec());
    assert_eq!(frame(&file_write_result(true)), b"HTTP/1.1 201 Created\r\n\r\n".to_vec());

    let get = Request::parse(b"GET /files/test.txt HTTP/1.1\r\n\r\n").unwrap();
    let read_name = match dispatch(&get) {
        Action::ReadFile(n) => n,
        other => panic!("expected a file read, got {}", describe(&other)),
    };
    assert_eq!(read_name, name);
    let out = frame(&file_read_result(Some(body)));
    let expected = b"HTTP/1.1 200 OK\r\nContent-Type: application/octet-stream\r\nContent-Length: 5\r\n\r\nhello";
    assert_eq!(out, expected.to_vec());
}

#[test]
fn a_post_without_a_body_is_404() {
    assert_eq!(
        respond(b"POST /files/test.txt HTTP/1.1\r\n\r\n"),
        b"HTTP/1.1 404 Not Found\r\n\r\n".to_vec(),
    );
}

#[test]
fn a_files_verb_other_than_get_or_post_is_404() {
    assert_eq!(
        respond(b"DELETE /files/test.txt HTTP/1.1\r\n\r\n"),
        b"HTTP/1.1 404 Not Found\r\n\r\n".to_vec(),
    );
}

#[test]
fn traversal_names_never_reach_the_file_system() {
    // Each of these must answer 404 directly, without asking for a read.
    for bytes in [
        b"GET /files/../secret HTTP/1.1\r\n\r\n".as_slice(),
        b"GET /files/a/b HTTP/1.1\r\n\r\n".as_slice(),
        b"GET /files/ HTTP/1.1\r\n\r\n".as_slice(),
        b"GET /files/a..b HTTP/1.1\r\n\r\n".as_slice(),
    ] {
        assert_eq!(respond(bytes), b"HTTP/1.1 404 Not Found\r\n\r\n".to_vec());
    }
}

#[test]
fn a_missing_file_is_404() {
    assert_eq!(frame(&file_read_result(None)), b"HTTP/1.1 404 Not Found\r\n\r\n".to_vec());
}

#[test]
fn a_failed_write_is_404() {
    assert_eq!(frame(&file_write_result(false)), b"HTTP/1.1 404 Not Found\r\n\r\n".to_vec());
}

#[test]
fn content_length_renders_multi_digit_lengths() {
    let contents = vec![b'x'; 1234];
    let out = frame(&file_read_result(Some(contents)));
    let head = b"HTTP/1.1 200 OK\r\nContent-Type: application/octet-stream\r\nContent-Length: 1234\r\n\r\n";
    assert_eq!(&out[..head.len()], head.as_slice());
    assert_eq!(out.len(), head.len() + 1234);
}
