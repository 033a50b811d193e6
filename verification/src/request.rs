//! The request model and its parser: one bounded read's bytes become a verb,
//! an endpoint path, the two recognized headers and an optional body, or one
//! of the three parse errors.

use crate::bytes::{
    after_first_token, find_seq, first_token, has_prefix, index_of_seq, lemma_index_of_seq,
    lines_of, split_lines, starts_with, take_token, trim, trim_spec,
};
use crate::decode::utf8_valid;
use vstd::prelude::*;
use vstd::slice::{slice_subrange, slice_to_vec};
use vstd::utf8::{encode_utf8, valid_utf8};

verus! {

/// The header prefix whose remainder is recorded as the User-Agent value.
pub open spec fn user_agent_prefix() -> Seq<u8> {
    encode_utf8("User-Agent: "@)
}

/// The header prefix whose remainder is recorded as the Accept-Encoding value.
pub open spec fn accept_encoding_prefix() -> Seq<u8> {
    encode_utf8("Accept-Encoding: "@)
}

/// The blank-line separator between a request's head and its body.
pub open spec fn head_separator() -> Seq<u8> {
    encode_utf8("\r\n\r\n"@)
}

/// Why raw bytes fail to parse as a request.
#[derive(Clone, Copy, Debug, PartialEq, Eq, Structural)]
pub enum ParseError {
    /// The bytes are not valid UTF-8.
    DecodeError,
    /// The head holds no line at all.
    EmptyRequest,
    /// The request line has fewer than two whitespace-separated tokens.
    MalformedRequestLine,
}

/// A parsed request: the verb and endpoint of its request line, the two
/// recognized headers where present, and the body when bytes follow the
/// head separator. Every other header line is parsed and discarded.
#[derive(Debug)]
pub struct Request {
    pub verb: Vec<u8>,
    pub endpoint: Vec<u8>,
    pub user_agent: Option<Vec<u8>>,
    pub accept_encoding: Option<Vec<u8>>,
    pub body: Option<Vec<u8>>,
}

/// What a `Request` is mathematically: the same fields over byte sequences.
pub struct RequestModel {
    pub verb: Seq<u8>,
    pub endpoint: Seq<u8>,
    pub user_agent: Option<Seq<u8>>,
    pub accept_encoding: Option<Seq<u8>>,
    pub body: Option<Seq<u8>>,
}

impl View for Request {
    type V = RequestModel;

    open spec fn view(&self) -> RequestModel {
        RequestModel {
            verb: self.verb@,
            endpoint: self.endpoint@,
            user_agent: match self.user_agent {
                Some(v) => Some(v@),
                None => None,
            },
            accept_encoding: match self.accept_encoding {
                Some(v) => Some(v@),
                None => None,
            },
            body: match self.body {
                Some(v) => Some(v@),
                None => None,
            },
        }
    }
}

/// Everything before the first head separator; the whole input when the
/// separator does not occur.
pub open spec fn head_of(b: Seq<u8>) -> Seq<u8> {
    match index_of_seq(b, head_separator()) {
        Some(i) => b.take(i),
        None => b,
    }
}

/// Everything after the first head separator, when that is non-empty.
pub open spec fn body_of(b: Seq<u8>) -> Option<Seq<u8>> {
    match index_of_seq(b, head_separator()) {
        Some(i) => {
            let tail = b.skip(i + head_separator().len() as int);
            if tail.len() > 0 {
                Some(tail)
            } else {
                None
            }
        },
        None => None,
    }
}

/// The verb and endpoint of a request line: its first two tokens. Fewer than
/// two tokens is a malformed request line.
pub open spec fn request_line_of(line: Seq<u8>) -> Option<(Seq<u8>, Seq<u8>)> {
    let verb = first_token(line);
    let endpoint = first_token(after_first_token(line));
    if verb.len() == 0 || endpoint.len() == 0 {
        None
    } else {
        Some((verb, endpoint))
    }
}

/// Folds the header lines in order into the two recognized header values: a
/// line beginning with a recognized prefix records its trimmed remainder,
/// later occurrences overwriting earlier ones; every other line is dropped.
pub open spec fn fold_headers(
    lines: Seq<Seq<u8>>,
    user_agent: Option<Seq<u8>>,
    accept_encoding: Option<Seq<u8>>,
) -> (Option<Seq<u8>>, Option<Seq<u8>>)
    decreases lines.len(),
{
    if lines.len() == 0 {
        (user_agent, accept_encoding)
    } else {
        let l = lines[0];
        let rest = lines.drop_first();
        if has_prefix(l, user_agent_prefix()) {
            fold_headers(
                rest,
                Some(trim_spec(l.skip(user_agent_prefix().len() as int))),
                accept_encoding,
            )
        } else if has_prefix(l, accept_encoding_prefix()) {
            fold_headers(
                rest,
                user_agent,
                Some(trim_spec(l.skip(accept_encoding_prefix().len() as int))),
            )
        } else {
            fold_headers(rest, user_agent, accept_encoding)
        }
    }
}

/// What raw request bytes parse to: the decode check, the head and body
/// split at the first blank-line separator, the request line's two tokens,
/// and the fold over the remaining head lines.
pub open spec fn parse_spec(b: Seq<u8>) -> Result<RequestModel, ParseError> {
    if !valid_utf8(b) {
        Err(ParseError::DecodeError)
    } else {
        let lines = lines_of(head_of(b));
        if lines.len() == 0 {
            Err(ParseError::EmptyRequest)
        } else {
            match request_line_of(lines[0]) {
                None => Err(ParseError::MalformedRequestLine),
                Some(ve) => {
                    let headers = fold_headers(lines.drop_first(), None, None);
                    Ok(
                        RequestModel {
                            verb: ve.0,
                            endpoint: ve.1,
                            user_agent: headers.0,
                            accept_encoding: headers.1,
                            body: body_of(b),
                        },
                    )
                },
            }
        }
    }
}

impl Request {
    /// Parses the bytes that one bounded read returned, exactly as
    /// `parse_spec` describes them.
    pub fn parse(data: &[u8]) -> (r: Result<Request, ParseError>)
        ensures
            match r {
                Ok(req) => parse_spec(data@) == Ok::<RequestModel, ParseError>(req@),
                Err(e) => parse_spec(data@) == Err::<RequestModel, ParseError>(e),
            },
    {
        if !utf8_valid(data) {
            return Err(ParseError::DecodeError);
        }
        let sep = "\r\n\r\n".as_bytes();
        proof {
            assert(sep@ == head_separator());
        }
        let head: &[u8];
        let mut body: Option<Vec<u8>> = None;
        let n = data.len();
        match find_seq(data, sep) {
            Some(i) => {
                proof {
                    lemma_index_of_seq(data@, sep@);
                    assert(i + sep@.len() <= n);
                }
                head = slice_subrange(data, 0, i);
                let after = slice_subrange(data, i + sep.len(), data.len());
                if after.len() > 0 {
                    body = Some(slice_to_vec(after));
                }
            },
            None => {
                head = data;
            },
        }
        proof {
            assert(head@ == head_of(data@));
            assert(match body {
                Some(v) => Some(v@),
                None => None::<Seq<u8>>,
            } == body_of(data@));
        }
        let lines = split_lines(head);
        if lines.len() == 0 {
            proof {
                assert(lines.deep_view().len() == 0);
            }
            return Err(ParseError::EmptyRequest);
        }
        proof {
            assert(lines.deep_view()[0] =~= lines[0 as int]@);
        }
        let line0 = &lines[0];
        let (verb, rest_at) = take_token(line0.as_slice());
        if verb.len() == 0 {
            return Err(ParseError::MalformedRequestLine);
        }
        let rest = slice_subrange(line0.as_slice(), rest_at, line0.len());
        let (endpoint, _next_at) = take_token(rest);
        if endpoint.len() == 0 {
            return Err(ParseError::MalformedRequestLine);
        }
        let ua_prefix = "User-Agent: ".as_bytes();
        let ae_prefix = "Accept-Encoding: ".as_bytes();
        proof {
            assert(ua_prefix@ == user_agent_prefix());
            assert(ae_prefix@ == accept_encoding_prefix());
        }
        let mut user_agent: Option<Vec<u8>> = None;
        let mut accept_encoding: Option<Vec<u8>> = None;
        let ghost all = lines.deep_view();
        let mut k: usize = 1;
        while k < lines.len()
            invariant
                1 <= k <= all.len(),
                all == lines.deep_view(),
                all.len() == lines@.len(),
                ua_prefix@ == user_agent_prefix(),
                ae_prefix@ == accept_encoding_prefix(),
                fold_headers(
                    all.skip(k as int),
                    match user_agent {
                        Some(v) => Some(v@),
                        None => None,
                    },
                    match accept_encoding {
                        Some(v) => Some(v@),
                        None => None,
                    },
                ) == fold_headers(all.skip(1), None, None),
            decreases all.len() - k,
        {
            let ghost cur = all.skip(k as int);
            proof {
                assert(cur[0] =~= lines[k as int]@);
                assert(cur.drop_first() =~= all.skip(k as int + 1));
            }
            let line = &lines[k];
            if starts_with(line.as_slice(), ua_prefix) {
                let value = trim(slice_subrange(line.as_slice(), ua_prefix.len(), line.len()));
                proof {
                    assert(cur[0].skip(user_agent_prefix().len() as int) =~= line@.subrange(
                        ua_prefix@.len() as int,
                        line@.len() as int,
                    ));
                    assert(value@ == trim_spec(cur[0].skip(user_agent_prefix().len() as int)));
                }
                user_agent = Some(value);
            } else if starts_with(line.as_slice(), ae_prefix) {
                let value = trim(slice_subrange(line.as_slice(), ae_prefix.len(), line.len()));
                proof {
                    assert(cur[0].skip(accept_encoding_prefix().len() as int) =~= line@.subrange(
                        ae_prefix@.len() as int,
                        line@.len() as int,
                    ));
                    assert(value@ == trim_spec(cur[0].skip(accept_encoding_prefix().len() as int)));
                }
                accept_encoding = Some(value);
            }
            k = k + 1;
        }
        proof {
            assert(all.skip(k as int) =~= Seq::<Seq<u8>>::empty());
            assert(all.skip(1) =~= all.drop_first());
        }
        let req = Request { verb, endpoint, user_agent, accept_encoding, body };
        proof {
            assert(parse_spec(data@) == Ok::<RequestModel, ParseError>(req@));
        }
        Ok(req)
    }
}

} // verus!
