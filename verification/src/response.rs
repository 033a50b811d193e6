//! The response model and its framer: a status from the fixed set, an
//! optional body with its media type and encoding, and the serialiser that
//! produces the exact byte sequence written back to the connection.

use vstd::prelude::*;
use vstd::slice::slice_to_vec;
use vstd::utf8::encode_utf8;

verus! {

/// The status lines this server can send.
#[derive(Clone, Copy, Debug, PartialEq, Eq, Structural)]
pub enum Status {
    Ok200,
    Created201,
    NotFound404,
}

/// The media types this server can name in a Content-Type header.
#[derive(Clone, Copy, Debug, PartialEq, Eq, Structural)]
pub enum MediaType {
    TextPlain,
    OctetStream,
}

/// A response body with its media type and transfer encoding. When `gzip` is
/// set the body bytes are already compressed, and a Content-Encoding header
/// is emitted; Content-Length always reflects `body` as it stands here.
pub struct Content {
    pub media: MediaType,
    pub gzip: bool,
    pub body: Vec<u8>,
}

/// What a `Content` is mathematically: the same fields over a byte sequence.
pub struct ContentModel {
    pub media: MediaType,
    pub gzip: bool,
    pub body: Seq<u8>,
}

impl View for Content {
    type V = ContentModel;

    open spec fn view(&self) -> ContentModel {
        ContentModel { media: self.media, gzip: self.gzip, body: self.body@ }
    }
}

/// A response: a status line and, for responses that carry one, a body with
/// its headers. A response without content frames as the bare status line.
pub struct Response {
    pub status: Status,
    pub content: Option<Content>,
}

/// What a `Response` is mathematically.
pub struct ResponseModel {
    pub status: Status,
    pub content: Option<ContentModel>,
}

impl View for Response {
    type V = ResponseModel;

    open spec fn view(&self) -> ResponseModel {
        ResponseModel {
            status: self.status,
            content: match self.content {
                Some(c) => Some(c@),
                None => None,
            },
        }
    }
}

/// The line terminator of the wire protocol.
pub open spec fn crlf() -> Seq<u8> {
    encode_utf8("\r\n"@)
}

/// The exact status line for each status.
pub open spec fn status_line(s: Status) -> Seq<u8> {
    match s {
        Status::Ok200 => encode_utf8("HTTP/1.1 200 OK"@),
        Status::Created201 => encode_utf8("HTTP/1.1 201 Created"@),
        Status::NotFound404 => encode_utf8("HTTP/1.1 404 Not Found"@),
    }
}

/// The exact Content-Type header line for each media type.
pub open spec fn media_type_line(m: MediaType) -> Seq<u8> {
    match m {
        MediaType::TextPlain => encode_utf8("Content-Type: text/plain"@),
        MediaType::OctetStream => encode_utf8("Content-Type: application/octet-stream"@),
    }
}

/// The decimal digits of `n`, most significant first, no sign and no padding.
pub open spec fn dec_of(n: nat) -> Seq<u8>
    decreases n,
{
    if n < 10 {
        seq![(48 + n) as u8]
    } else {
        dec_of(n / 10) + seq![(48 + n % 10) as u8]
    }
}

/// The header block of a response body: Content-Type, then Content-Length,
/// then Content-Encoding when the body is gzip-compressed, each line
/// terminated; the length counts the body bytes as they stand.
pub open spec fn header_block(c: ContentModel) -> Seq<u8> {
    media_type_line(c.media) + crlf() + encode_utf8("Content-Length: "@) + dec_of(c.body.len())
        + crlf() + if c.gzip {
        encode_utf8("Content-Encoding: gzip"@) + crlf()
    } else {
        Seq::<u8>::empty()
    }
}

/// The exact bytes a response serialises to: the status line, the header
/// lines, a blank line, then the body verbatim.
pub open spec fn frame_spec(r: ResponseModel) -> Seq<u8> {
    status_line(r.status) + crlf() + match r.content {
        Some(c) => header_block(c) + crlf() + c.body,
        None => crlf(),
    }
}

/// Appends the bytes of `b` to `out`.
fn append_bytes(out: &mut Vec<u8>, b: &[u8])
    ensures
        final(out)@ == old(out)@ + b@,
{
    let mut tail = slice_to_vec(b);
    out.append(&mut tail);
}

/// Appends the bytes of an ASCII literal to `out`.
fn append_str(out: &mut Vec<u8>, s: &str)
    ensures
        final(out)@ == old(out)@ + encode_utf8(s@),
{
    append_bytes(out, s.as_bytes());
}

/// Appends the decimal digits of `n` to `out`.
fn append_dec(out: &mut Vec<u8>, n: u64)
    ensures
        final(out)@ == old(out)@ + dec_of(n as nat),
    decreases n,
{
    if n < 10 {
        out.push((48 + n) as u8);
        proof {
            assert(out@ =~= old(out)@ + dec_of(n as nat));
        }
    } else {
        append_dec(out, n / 10);
        out.push((48 + (n % 10)) as u8);
        proof {
            assert(out@ =~= old(out)@ + dec_of(n as nat));
        }
    }
}

/// Serialises a response into the exact byte sequence of the wire protocol.
#[verifier::rlimit(50)]
pub fn frame(resp: &Response) -> (out: Vec<u8>)
    ensures
        out@ == frame_spec(resp@),
{
    let mut out: Vec<u8> = Vec::new();
    match resp.status {
        Status::Ok200 => append_str(&mut out, "HTTP/1.1 200 OK"),
        Status::Created201 => append_str(&mut out, "HTTP/1.1 201 Created"),
        Status::NotFound404 => append_str(&mut out, "HTTP/1.1 404 Not Found"),
    }
    append_str(&mut out, "\r\n");
    match &resp.content {
        Some(c) => {
            match c.media {
                MediaType::TextPlain => append_str(&mut out, "Content-Type: text/plain"),
                MediaType::OctetStream => append_str(
                    &mut out,
                    "Content-Type: application/octet-stream",
                ),
            }
            append_str(&mut out, "\r\n");
            append_str(&mut out, "Content-Length: ");
            append_dec(&mut out, c.body.len() as u64);
            append_str(&mut out, "\r\n");
            if c.gzip {
                append_str(&mut out, "Content-Encoding: gzip");
                append_str(&mut out, "\r\n");
            }
            append_str(&mut out, "\r\n");
            append_bytes(&mut out, c.body.as_slice());
            proof {
                assert(out@ =~= frame_spec(resp@));
            }
        },
        None => {
            append_str(&mut out, "\r\n");
            proof {
                assert(out@ =~= frame_spec(resp@));
            }
        },
    }
    out
}

} // verus!
