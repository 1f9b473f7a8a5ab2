//! Parsing a raw request buffer, read front to back as a cursor.
use vstd::prelude::*;
use vstd::utf8::*;
use vstd::string::*;
use crate::headers::Headers;
use crate::method::{method_of, Method, ParseError};
use crate::text::{
    char_pos, find_char, lower_of, opt_chars, parse_usize, string_from_utf8, to_lower,
    trim_str, trim_ws, usize_of_text,
};

verus! {

/// The byte that ends the method and path tokens.
pub const SPACE: u8 = 32;

/// The byte that ends a line.
pub const NEWLINE: u8 = 10;

/// The position just past the first `delim` at or after `pos`, or the end of
/// the buffer when no `delim` follows: how far `read_until` consumes.
pub open spec fn scan_past(buf: Seq<u8>, pos: int, delim: u8) -> int
    decreases buf.len() - pos,
{
    if pos >= buf.len() {
        buf.len() as int
    } else if buf[pos] == delim {
        pos + 1
    } else {
        scan_past(buf, pos + 1, delim)
    }
}

/// `scan_past` stays within the buffer and moves forward while bytes remain.
pub proof fn lemma_scan_past(buf: Seq<u8>, pos: int, delim: u8)
    requires
        pos <= buf.len(),
    ensures
        pos <= scan_past(buf, pos, delim) <= buf.len(),
        pos < buf.len() ==> pos < scan_past(buf, pos, delim),
    decreases buf.len() - pos,
{
    if pos < buf.len() && buf[pos] != delim {
        lemma_scan_past(buf, pos + 1, delim);
    }
}

/// The `(name, value)` pair of a header line: split at the first colon, the
/// name trimmed and lower-cased, the value trimmed. A line without a colon
/// has none.
pub open spec fn header_pair(text: Seq<char>) -> Option<(Seq<char>, Seq<char>)> {
    let k = char_pos(text, 0, ':');
    if k < text.len() {
        Some((lower_of(trim_ws(text.take(k))), trim_ws(text.skip(k + 1))))
    } else {
        None
    }
}

/// Reads header lines from `pos` into `acc` until a blank line or the end of
/// the buffer; gives the map and the position after the block.
pub open spec fn header_block(buf: Seq<u8>, pos: int, acc: Map<Seq<char>, Seq<char>>) -> Result<
    (Map<Seq<char>, Seq<char>>, int),
    ParseError,
>
    decreases buf.len() - pos,
    via header_block_decreases
{
    if pos >= buf.len() {
        Ok((acc, pos))
    } else {
        let end = scan_past(buf, pos, NEWLINE);
        let line = buf.subrange(pos, end);
        if !valid_utf8(line) {
            Err(ParseError::HeaderNotUtf8)
        } else if trim_ws(decode_utf8(line)).len() == 0 {
            Ok((acc, end))
        } else {
            let next = match header_pair(decode_utf8(line)) {
                Some(p) => acc.insert(p.0, p.1),
                None => acc,
            };
            header_block(buf, end, next)
        }
    }
}

/// The header block ends no earlier than it starts.
pub proof fn lemma_header_block_end(buf: Seq<u8>, pos: int, acc: Map<Seq<char>, Seq<char>>)
    requires
        0 <= pos <= buf.len(),
    ensures
        header_block(buf, pos, acc) is Ok ==> pos <= header_block(buf, pos, acc)->Ok_0.1,
    decreases buf.len() - pos,
{
    if pos < buf.len() {
        lemma_scan_past(buf, pos, NEWLINE);
        let end = scan_past(buf, pos, NEWLINE);
        let line = buf.subrange(pos, end);
        if valid_utf8(line) && trim_ws(decode_utf8(line)).len() != 0 {
            let next = match header_pair(decode_utf8(line)) {
                Some(p) => acc.insert(p.0, p.1),
                None => acc,
            };
            lemma_header_block_end(buf, end, next);
        }
    }
}

#[via_fn]
proof fn header_block_decreases(buf: Seq<u8>, pos: int, acc: Map<Seq<char>, Seq<char>>) {
    if pos < buf.len() {
        lemma_scan_past(buf, pos, NEWLINE);
    }
}

/// The body that follows the header block at `pos`: exactly `content-length`
/// bytes, which must be there and be UTF-8.
pub open spec fn body_of(buf: Seq<u8>, pos: int, headers: Map<Seq<char>, Seq<char>>) -> Result<
    Seq<char>,
    ParseError,
> {
    if !headers.contains_key("content-length"@) {
        Err(ParseError::MissingContentLength)
    } else {
        match usize_of_text(headers["content-length"@]) {
            None => Err(ParseError::InvalidContentLength),
            Some(n) => if pos + n > buf.len() {
                Err(ParseError::TruncatedBody)
            } else if !valid_utf8(buf.subrange(pos, pos + n)) {
                Err(ParseError::BodyNotUtf8)
            } else {
                Ok(decode_utf8(buf.subrange(pos, pos + n)))
            },
        }
    }
}

/// A parsed request, as values.
pub struct RequestView {
    pub method: Method,
    pub path: Seq<char>,
    pub protocol: Seq<char>,
    pub headers: Map<Seq<char>, Seq<char>>,
    pub body: Option<Seq<char>>,
}

/// What a raw buffer parses to: the method token up to the first space, the
/// path token up to the next, the protocol line, the header block, and for a
/// `POST` the body.
pub open spec fn request_of(buf: Seq<u8>) -> Result<RequestView, ParseError> {
    let m_end = scan_past(buf, 0, SPACE);
    let p_end = scan_past(buf, m_end, SPACE);
    let l_end = scan_past(buf, p_end, NEWLINE);
    let path_token = buf.subrange(m_end, p_end);
    let line = buf.subrange(p_end, l_end);
    match method_of(buf.subrange(0, m_end)) {
        Err(e) => Err(e),
        Ok(method) => if !valid_utf8(path_token) {
            Err(ParseError::PathNotUtf8)
        } else if !valid_utf8(line) {
            Err(ParseError::ProtocolNotUtf8)
        } else {
            match header_block(buf, l_end, Map::empty()) {
                Err(e) => Err(e),
                Ok(block) => {
                    let body = if method == Method::Post {
                        body_of(buf, block.1, block.0)
                    } else {
                        Ok(Seq::empty())
                    };
                    match body {
                        Err(e) => Err(e),
                        Ok(b) => Ok(
                            RequestView {
                                method,
                                path: trim_ws(decode_utf8(path_token)),
                                protocol: trim_ws(decode_utf8(line)),
                                headers: block.0,
                                body: if method == Method::Post {
                                    Some(b)
                                } else {
                                    None
                                },
                            },
                        ),
                    }
                },
            }
        },
    }
}

/// A request: method, path, protocol, headers and, for a `POST`, its body.
#[derive(Debug)]
pub struct Request {
    pub method: Method,
    pub path: String,
    pub protocol: String,
    pub headers: Headers,
    pub body: Option<String>,
}

impl Request {
    pub open spec fn view(&self) -> RequestView {
        RequestView {
            method: self.method,
            path: self.path@,
            protocol: self.protocol@,
            headers: self.headers@,
            body: opt_chars(self.body),
        }
    }
}

/// Consumes bytes from `pos` up to and including the first `delim`, or to the
/// end of the buffer.
fn read_until(buf: &Vec<u8>, pos: usize, delim: u8) -> (r: (Vec<u8>, usize))
    requires
        pos <= buf@.len(),
    ensures
        r.1 == scan_past(buf@, pos as int, delim),
        pos <= r.1 <= buf@.len(),
        r.0@ == buf@.subrange(pos as int, r.1 as int),
{
    let mut out: Vec<u8> = Vec::new();
    let mut i: usize = pos;
    while i < buf.len()
        invariant
            pos <= i <= buf@.len(),
            out@ == buf@.subrange(pos as int, i as int),
            scan_past(buf@, pos as int, delim) == scan_past(buf@, i as int, delim),
        decreases buf@.len() - i,
    {
        let b = buf[i];
        out.push(b);
        assert(out@ =~= buf@.subrange(pos as int, i + 1));
        i = i + 1;
        if b == delim {
            return (out, i);
        }
    }
    (out, i)
}

fn parse_method_from_request(buf: &Vec<u8>) -> (r: (Result<Method, ParseError>, usize))
    ensures
        r.1 == scan_past(buf@, 0, SPACE),
        r.1 <= buf@.len(),
        r.0 == method_of(buf@.subrange(0, r.1 as int)),
{
    let (token, end) = read_until(buf, 0, SPACE);
    (Method::from_token(token), end)
}

fn parse_path_from_request(buf: &Vec<u8>, pos: usize) -> (r: (Option<String>, usize))
    requires
        pos <= buf@.len(),
    ensures
        r.1 == scan_past(buf@, pos as int, SPACE),
        r.1 <= buf@.len(),
        match r.0 {
            Some(p) => valid_utf8(buf@.subrange(pos as int, r.1 as int)) && p@ == trim_ws(
                decode_utf8(buf@.subrange(pos as int, r.1 as int)),
            ),
            None => !valid_utf8(buf@.subrange(pos as int, r.1 as int)),
        },
{
    let (token, end) = read_until(buf, pos, SPACE);
    match string_from_utf8(token) {
        Some(t) => (Some(trim_str(t.as_str()).to_owned()), end),
        None => (None, end),
    }
}

fn parse_protocol_from_request(buf: &Vec<u8>, pos: usize) -> (r: (Option<String>, usize))
    requires
        pos <= buf@.len(),
    ensures
        r.1 == scan_past(buf@, pos as int, NEWLINE),
        r.1 <= buf@.len(),
        match r.0 {
            Some(p) => valid_utf8(buf@.subrange(pos as int, r.1 as int)) && p@ == trim_ws(
                decode_utf8(buf@.subrange(pos as int, r.1 as int)),
            ),
            None => !valid_utf8(buf@.subrange(pos as int, r.1 as int)),
        },
{
    let (line, end) = read_until(buf, pos, NEWLINE);
    match string_from_utf8(line) {
        Some(t) => (Some(trim_str(t.as_str()).to_owned()), end),
        None => (None, end),
    }
}

/// Splits a header line at its first colon into a lower-cased, trimmed name
/// and a trimmed value.
pub fn split_header(text: &str) -> (r: Option<(String, String)>)
    ensures
        match r {
            Some(p) => header_pair(text@) == Some((p.0@, p.1@)),
            None => header_pair(text@) is None,
        },
{
    let n = text.unicode_len();
    let k = find_char(text, 0, ':');
    if k >= n {
        return None;
    }
    let name = to_lower(trim_str(text.substring_char(0, k)));
    let value = trim_str(text.substring_char(k + 1, n)).to_owned();
    assert(text@.take(k as int) =~= text@.subrange(0, k as int));
    assert(text@.skip(k + 1) =~= text@.subrange(k + 1, n as int));
    Some((name, value))
}

fn parse_headers_from_request(buf: &Vec<u8>, start: usize) -> (r: Result<(Headers, usize), ParseError>)
    requires
        start <= buf@.len(),
    ensures
        match r {
            Ok(p) => p.1 <= buf@.len() && header_block(buf@, start as int, Map::empty()) == Ok::<
                (Map<Seq<char>, Seq<char>>, int),
                ParseError,
            >((p.0@, p.1 as int)),
            Err(e) => header_block(buf@, start as int, Map::empty()) == Err::<
                (Map<Seq<char>, Seq<char>>, int),
                ParseError,
            >(e),
        },
{
    let mut headers = Headers::new();
    let mut pos: usize = start;
    loop
        invariant
            pos <= buf@.len(),
            header_block(buf@, pos as int, headers@) == header_block(
                buf@,
                start as int,
                Map::empty(),
            ),
        decreases buf@.len() - pos,
    {
        if pos >= buf.len() {
            return Ok((headers, pos));
        }
        let (line, end) = read_until(buf, pos, NEWLINE);
        proof {
            lemma_scan_past(buf@, pos as int, NEWLINE);
        }
        let text = match string_from_utf8(line) {
            Some(t) => t,
            None => return Err(ParseError::HeaderNotUtf8),
        };
        if trim_str(text.as_str()).is_empty() {
            return Ok((headers, end));
        }
        match split_header(text.as_str()) {
            Some(pair) => headers.insert(pair.0, pair.1),
            None => {},
        }
        pos = end;
    }
}

fn parse_body_from_request(buf: &Vec<u8>, pos: usize, headers: &Headers) -> (r: Result<
    String,
    ParseError,
>)
    requires
        pos <= buf@.len(),
    ensures
        match r {
            Ok(b) => body_of(buf@, pos as int, headers@) == Ok::<Seq<char>, ParseError>(b@),
            Err(e) => body_of(buf@, pos as int, headers@) == Err::<Seq<char>, ParseError>(e),
        },
{
    let length_text = match headers.get("content-length") {
        Some(v) => v,
        None => return Err(ParseError::MissingContentLength),
    };
    let n = match parse_usize(length_text.as_str()) {
        Some(n) => n,
        None => return Err(ParseError::InvalidContentLength),
    };
    if n > buf.len() - pos {
        return Err(ParseError::TruncatedBody);
    }
    let mut bytes: Vec<u8> = Vec::new();
    let stop = pos + n;
    let mut i: usize = pos;
    while i < stop
        invariant
            stop == pos + n,
            pos <= i <= pos + n <= buf@.len(),
            bytes@ == buf@.subrange(pos as int, i as int),
        decreases pos + n - i,
    {
        bytes.push(buf[i]);
        assert(bytes@ =~= buf@.subrange(pos as int, i + 1));
        i = i + 1;
    }
    match string_from_utf8(bytes) {
        Some(b) => Ok(b),
        None => Err(ParseError::BodyNotUtf8),
    }
}

/// Parses a raw request buffer.
pub fn parse_raw_request(request: Vec<u8>) -> (r: Result<Request, ParseError>)
    ensures
        match r {
            Ok(req) => request_of(request@) == Ok::<RequestView, ParseError>(req.view()),
            Err(e) => request_of(request@) == Err::<RequestView, ParseError>(e),
        },
{
    let buf = &request;
    let (method, m_end) = parse_method_from_request(buf);
    let method = match method {
        Ok(m) => m,
        Err(e) => return Err(e),
    };
    let (path, p_end) = parse_path_from_request(buf, m_end);
    let path = match path {
        Some(p) => p,
        None => return Err(ParseError::PathNotUtf8),
    };
    let (protocol, l_end) = parse_protocol_from_request(buf, p_end);
    let protocol = match protocol {
        Some(p) => p,
        None => return Err(ParseError::ProtocolNotUtf8),
    };
    let (headers, h_end) = match parse_headers_from_request(buf, l_end) {
        Ok(p) => p,
        Err(e) => return Err(e),
    };
    let body = if method == Method::Post {
        match parse_body_from_request(buf, h_end, &headers) {
            Ok(b) => Some(b),
            Err(e) => return Err(e),
        }
    } else {
        None
    };
    let req = Request { method, path, protocol, headers, body };
    assert(request_of(request@) == Ok::<RequestView, ParseError>(req.view()));
    Ok(req)
}

} // verus!
