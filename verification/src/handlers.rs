//! The router and the handlers: a parsed request maps to a finished response
//! or to one file-system step, and each handler's result is pinned down by a
//! spec function. File contents and the file system itself stay with the
//! caller; the decisions about them are made and verified here.

use crate::bytes::{
    bytes_eq, contains_byte, contains_byte_value, contains_bytes, contains_seq, has_prefix,
    starts_with,
};
use crate::gzip::{gzip_compress, gzip_of};
use crate::request::{Request, RequestModel};
use crate::response::{
    crlf, frame_spec, status_line, Content, ContentModel, MediaType, Response, ResponseModel,
    Status,
};
use vstd::prelude::*;
use vstd::slice::{slice_subrange, slice_to_vec};
use vstd::utf8::encode_utf8;

verus! {

/// The path served by the root handler.
pub open spec fn root_path() -> Seq<u8> {
    encode_utf8("/"@)
}

/// The path prefix served by the echo handler.
pub open spec fn echo_prefix() -> Seq<u8> {
    encode_utf8("/echo/"@)
}

/// The path prefix served by the file handlers.
pub open spec fn files_prefix() -> Seq<u8> {
    encode_utf8("/files/"@)
}

/// The path served by the user-agent handler.
pub open spec fn user_agent_path() -> Seq<u8> {
    encode_utf8("/user-agent"@)
}

/// The verb that reads a file.
pub open spec fn get_verb() -> Seq<u8> {
    encode_utf8("GET"@)
}

/// The verb that stores a file.
pub open spec fn post_verb() -> Seq<u8> {
    encode_utf8("POST"@)
}

/// The substring of an Accept-Encoding value that turns gzip compression on.
pub open spec fn gzip_token() -> Seq<u8> {
    encode_utf8("gzip"@)
}

/// The substring that the path-traversal guard rejects in a filename.
pub open spec fn traversal_marker() -> Seq<u8> {
    encode_utf8(".."@)
}

/// The 404 response: the bare status line, no headers, no body.
pub open spec fn not_found_model() -> ResponseModel {
    ResponseModel { status: Status::NotFound404, content: None }
}

/// The root handler's response: 200 with no headers and no body.
pub open spec fn root_model() -> ResponseModel {
    ResponseModel { status: Status::Ok200, content: None }
}

fn not_found_response() -> (r: Response)
    ensures
        r@ == not_found_model(),
{
    Response { status: Status::NotFound404, content: None }
}

/// Serves the root path: 200 with no headers and no body, whatever the verb.
pub fn handle_root() -> (r: Response)
    ensures
        r@ == root_model(),
{
    Response { status: Status::Ok200, content: None }
}

/// What the echo handler responds: 404 for an empty value or one holding a
/// slash; otherwise the value itself as text/plain, gzip-compressed exactly
/// when the Accept-Encoding value contains "gzip" anywhere in it, with the
/// body holding the compressed bytes in that case.
pub open spec fn echo_spec(value: Seq<u8>, accept_encoding: Option<Seq<u8>>) -> ResponseModel {
    if value.len() == 0 || contains_byte(value, '/' as u8) {
        not_found_model()
    } else {
        let gz = match accept_encoding {
            Some(ae) => contains_seq(ae, gzip_token()),
            None => false,
        };
        ResponseModel {
            status: Status::Ok200,
            content: Some(
                ContentModel {
                    media: MediaType::TextPlain,
                    gzip: gz,
                    body: if gz {
                        gzip_of(value)
                    } else {
                        value
                    },
                },
            ),
        }
    }
}

/// Serves an echo path: the value after the prefix, negotiated against the
/// request's Accept-Encoding value.
pub fn handle_echo(value: &[u8], accept_encoding: Option<&Vec<u8>>) -> (r: Response)
    ensures
        r@ == echo_spec(
            value@,
            match accept_encoding {
                Some(v) => Some(v@),
                None => None,
            },
        ),
{
    if value.len() == 0 || contains_byte_value(value, '/' as u8) {
        return not_found_response();
    }
    let gz = match accept_encoding {
        Some(ae) => contains_bytes(ae.as_slice(), "gzip".as_bytes()),
        None => false,
    };
    let body = if gz {
        gzip_compress(value)
    } else {
        slice_to_vec(value)
    };
    Response {
        status: Status::Ok200,
        content: Some(Content { media: MediaType::TextPlain, gzip: gz, body }),
    }
}

/// What the user-agent handler responds: the recorded header value as
/// text/plain, or 404 when the request carried none.
pub open spec fn user_agent_spec(user_agent: Option<Seq<u8>>) -> ResponseModel {
    match user_agent {
        Some(v) => ResponseModel {
            status: Status::Ok200,
            content: Some(ContentModel { media: MediaType::TextPlain, gzip: false, body: v }),
        },
        None => not_found_model(),
    }
}

/// Serves the user-agent path from the recorded User-Agent value.
pub fn handle_user_agent(user_agent: Option<&Vec<u8>>) -> (r: Response)
    ensures
        r@ == user_agent_spec(
            match user_agent {
                Some(v) => Some(v@),
                None => None,
            },
        ),
{
    match user_agent {
        Some(v) => Response {
            status: Status::Ok200,
            content: Some(
                Content { media: MediaType::TextPlain, gzip: false, body: slice_to_vec(v.as_slice()) },
            ),
        },
        None => not_found_response(),
    }
}

/// A filename the file-read handler accepts: non-empty, without a slash, and
/// without ".." anywhere — a conservative path-traversal guard that also
/// rejects names such as "a..b".
pub open spec fn valid_get_filename(name: Seq<u8>) -> bool {
    name.len() > 0 && !contains_byte(name, '/' as u8) && !contains_seq(name, traversal_marker())
}

/// A filename the file-write handler accepts: non-empty and without a slash.
/// The ".." guard is deliberately absent on the write path.
pub open spec fn valid_post_filename(name: Seq<u8>) -> bool {
    name.len() > 0 && !contains_byte(name, '/' as u8)
}

/// Checks the path-traversal guard of the file-read handler.
pub fn check_get_filename(name: &[u8]) -> (r: bool)
    ensures
        r == valid_get_filename(name@),
{
    name.len() > 0 && !contains_byte_value(name, '/' as u8) && !contains_bytes(
        name,
        "..".as_bytes(),
    )
}

/// Checks the filename rule of the file-write handler.
pub fn check_post_filename(name: &[u8]) -> (r: bool)
    ensures
        r == valid_post_filename(name@),
{
    name.len() > 0 && !contains_byte_value(name, '/' as u8)
}

/// What handling a request requires of the caller: a finished response to
/// write back, or one file-system step, whose outcome `file_read_result` or
/// `file_write_result` turns into the response.
pub enum Action {
    Respond(Response),
    ReadFile(Vec<u8>),
    WriteFile(Vec<u8>, Vec<u8>),
}

/// What an `Action` is mathematically.
pub enum ActionModel {
    Respond(ResponseModel),
    ReadFile(Seq<u8>),
    WriteFile(Seq<u8>, Seq<u8>),
}

impl View for Action {
    type V = ActionModel;

    open spec fn view(&self) -> ActionModel {
        match self {
            Action::Respond(r) => ActionModel::Respond(r@),
            Action::ReadFile(name) => ActionModel::ReadFile(name@),
            Action::WriteFile(name, body) => ActionModel::WriteFile(name@, body@),
        }
    }
}

/// Where a request goes: the root path, the echo prefix, the files prefix
/// (GET reads, POST with a body writes, anything else is 404), the
/// user-agent path, and 404 for every other path — checked in that order.
pub open spec fn dispatch_spec(req: RequestModel) -> ActionModel {
    let path = req.endpoint;
    if path == root_path() {
        ActionModel::Respond(root_model())
    } else if has_prefix(path, echo_prefix()) {
        ActionModel::Respond(
            echo_spec(path.skip(echo_prefix().len() as int), req.accept_encoding),
        )
    } else if has_prefix(path, files_prefix()) {
        let name = path.skip(files_prefix().len() as int);
        if req.verb == get_verb() {
            if valid_get_filename(name) {
                ActionModel::ReadFile(name)
            } else {
                ActionModel::Respond(not_found_model())
            }
        } else if req.verb == post_verb() {
            match req.body {
                None => ActionModel::Respond(not_found_model()),
                Some(body) => if valid_post_filename(name) {
                    ActionModel::WriteFile(name, body)
                } else {
                    ActionModel::Respond(not_found_model())
                },
            }
        } else {
            ActionModel::Respond(not_found_model())
        }
    } else if path == user_agent_path() {
        ActionModel::Respond(user_agent_spec(req.user_agent))
    } else {
        ActionModel::Respond(not_found_model())
    }
}

/// Routes a parsed request, exactly as `dispatch_spec` describes it.
pub fn dispatch(req: &Request) -> (a: Action)
    ensures
        a@ == dispatch_spec(req@),
{
    let path = req.endpoint.as_slice();
    if bytes_eq(path, "/".as_bytes()) {
        return Action::Respond(handle_root());
    }
    let echo_p = "/echo/".as_bytes();
    if starts_with(path, echo_p) {
        let value = slice_subrange(path, echo_p.len(), path.len());
        let accept_encoding = match &req.accept_encoding {
            Some(v) => Some(v),
            None => None,
        };
        return Action::Respond(handle_echo(value, accept_encoding));
    }
    let files_p = "/files/".as_bytes();
    if starts_with(path, files_p) {
        let name = slice_subrange(path, files_p.len(), path.len());
        if bytes_eq(req.verb.as_slice(), "GET".as_bytes()) {
            if check_get_filename(name) {
                return Action::ReadFile(slice_to_vec(name));
            }
            return Action::Respond(not_found_response());
        }
        if bytes_eq(req.verb.as_slice(), "POST".as_bytes()) {
            match &req.body {
                None => {
                    return Action::Respond(not_found_response());
                },
                Some(body) => {
                    if check_post_filename(name) {
                        return Action::WriteFile(slice_to_vec(name), slice_to_vec(body.as_slice()));
                    }
                    return Action::Respond(not_found_response());
                },
            }
        }
        return Action::Respond(not_found_response());
    }
    if bytes_eq(path, "/user-agent".as_bytes()) {
        let user_agent = match &req.user_agent {
            Some(v) => Some(v),
            None => None,
        };
        return Action::Respond(handle_user_agent(user_agent));
    }
    Action::Respond(not_found_response())
}

/// What a file read's outcome responds: the full contents, however many
/// bytes were read, as application/octet-stream; 404 when the file could not
/// be opened or read.
pub open spec fn file_read_spec(contents: Option<Seq<u8>>) -> ResponseModel {
    match contents {
        Some(c) => ResponseModel {
            status: Status::Ok200,
            content: Some(ContentModel { media: MediaType::OctetStream, gzip: false, body: c }),
        },
        None => not_found_model(),
    }
}

/// Turns a file read's outcome into the response for it.
pub fn file_read_result(contents: Option<Vec<u8>>) -> (r: Response)
    ensures
        r@ == file_read_spec(
            match contents {
                Some(c) => Some(c@),
                None => None,
            },
        ),
{
    match contents {
        Some(c) => Response {
            status: Status::Ok200,
            content: Some(Content { media: MediaType::OctetStream, gzip: false, body: c }),
        },
        None => not_found_response(),
    }
}

/// What a file write's outcome responds: 201 Created with no headers and no
/// body; 404 when the file could not be opened for writing.
pub open spec fn file_write_spec(ok: bool) -> ResponseModel {
    if ok {
        ResponseModel { status: Status::Created201, content: None }
    } else {
        not_found_model()
    }
}

/// Turns a file write's outcome into the response for it.
pub fn file_write_result(ok: bool) -> (r: Response)
    ensures
        r@ == file_write_spec(ok),
{
    if ok {
        Response { status: Status::Created201, content: None }
    } else {
        not_found_response()
    }
}

/// The root path always answers with the bare success status line, whatever
/// else the request held: framed, nothing follows the status line but the
/// blank line — no headers and no body.
pub proof fn lemma_root_is_a_bare_ok(req: RequestModel)
    requires
        req.endpoint == root_path(),
    ensures
        dispatch_spec(req) == ActionModel::Respond(root_model()),
        frame_spec(root_model()) == status_line(Status::Ok200) + crlf() + crlf(),
{
}

/// The path-traversal guard, stated once and for all: whatever the request
/// was, a read action only ever names a file that the guard accepts.
pub proof fn lemma_read_actions_are_guarded(req: RequestModel)
    ensures
        match dispatch_spec(req) {
            ActionModel::ReadFile(name) => valid_get_filename(name),
            _ => true,
        },
{
}

/// A write action only ever names a file that the write-path rule accepts,
/// and only ever carries the request's own body.
pub proof fn lemma_write_actions_are_guarded(req: RequestModel)
    ensures
        match dispatch_spec(req) {
            ActionModel::WriteFile(name, body) => valid_post_filename(name) && req.body == Some(
                body,
            ),
            _ => true,
        },
{
}

} // verus!
