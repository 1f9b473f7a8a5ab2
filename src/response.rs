//! Responses: status codes, content negotiation and the bytes on the wire.
use vstd::prelude::*;
use vstd::utf8::*;
use vstd::string::*;
use vstd::slice::slice_to_vec;
use crate::gzip::{gzip_bytes, gzip_of};
use crate::request::Request;
use crate::text::{
    decimal_text, lemma_char_pos, find_char, lower_of, opt_chars, str_eq, to_lower, trim_str, trim_ws,
    usize_text,
};

verus! {

broadcast use vstd::utf8::encode_utf8_decode_utf8;

/// The status codes this server sends.
#[derive(Debug, Clone, Copy, PartialEq, Eq, Structural)]
pub enum HttpCode {
    Success,
    NotFound,
    YourFault,
    Created,
}

/// The number and reason phrase of a status code.
pub open spec fn code_text(code: HttpCode) -> Seq<char> {
    match code {
        HttpCode::Success => "200 Ok"@,
        HttpCode::NotFound => "404 Not Found"@,
        HttpCode::YourFault => "400 Bad Request"@,
        HttpCode::Created => "201 Created"@,
    }
}

impl HttpCode {
    /// The number and reason phrase, as they stand in the status line.
    pub fn status_text(&self) -> (r: String)
        ensures
            r@ == code_text(*self),
    {
        match self {
            HttpCode::Success => "200 Ok".to_owned(),
            HttpCode::NotFound => "404 Not Found".to_owned(),
            HttpCode::YourFault => "400 Bad Request".to_owned(),
            HttpCode::Created => "201 Created".to_owned(),
        }
    }
}

/// The media types of response bodies.
#[derive(Debug, Clone, Copy, PartialEq, Eq, Structural)]
pub enum ContentType {
    TextPlain,
    ApplicationOctetStream,
}

/// The `Content-Type` header line for a media type.
pub open spec fn content_type_line(ct: ContentType) -> Seq<char> {
    match ct {
        ContentType::TextPlain => "Content-Type: text/plain\r\n"@,
        ContentType::ApplicationOctetStream => "Content-Type: application/octet-stream\r\n"@,
    }
}

/// The `Content-Length` header line for a body of `n` bytes.
pub open spec fn length_line(n: nat) -> Seq<char> {
    "Content-Length: "@ + decimal_text(n) + "\r\n"@
}

/// The `Content-Encoding` header line, present only for a compressed body.
pub open spec fn encoding_line(gzip: bool) -> Seq<char> {
    if gzip {
        "Content-Encoding: gzip\r\n"@
    } else {
        Seq::empty()
    }
}

/// The status line for a code.
pub open spec fn status_line(code: HttpCode) -> Seq<char> {
    "HTTP/1.1 "@ + code_text(code) + "\r\n"@
}

/// A response, as values.
pub struct ResponseView {
    pub code: HttpCode,
    pub body: Option<Seq<char>>,
    pub content_type: ContentType,
    pub gzip_encoding: bool,
    pub encoded_body: Option<Seq<u8>>,
}

/// A response as a handler builds it; `gzip_encoding` and `encoded_body` are
/// filled in from the request by `encode_body`.
#[derive(Debug)]
pub struct Response {
    pub code: HttpCode,
    pub body: Option<String>,
    pub content_type: ContentType,
    pub gzip_encoding: bool,
    pub encoded_body: Option<Vec<u8>>,
}

/// A response with the given code and no body, as the handlers build it.
pub open spec fn bare(code: HttpCode) -> ResponseView {
    ResponseView {
        code,
        body: None,
        content_type: ContentType::TextPlain,
        gzip_encoding: false,
        encoded_body: None,
    }
}

/// A response with the given code, body and type, as the handlers build it.
pub open spec fn with_body(code: HttpCode, body: Seq<char>, ct: ContentType) -> ResponseView {
    ResponseView { code, body: Some(body), content_type: ct, gzip_encoding: false, encoded_body: None }
}

/// The bytes that go out after the blank line: the compressed body when
/// compression was chosen, else the body's UTF-8 bytes; none without a body.
pub open spec fn payload_of(r: ResponseView) -> Option<Seq<u8>> {
    match r.body {
        None => None,
        Some(b) => if r.gzip_encoding {
            r.encoded_body
        } else {
            Some(encode_utf8(b))
        },
    }
}

/// The full response on the wire. A response without a body carries only the
/// status line; one with a body carries its type, the length of what is sent,
/// and the encoding when compressed. There is none when compression was chosen
/// but the compressed body is missing.
pub open spec fn wire_of(r: ResponseView) -> Option<Seq<u8>> {
    match r.body {
        None => Some(encode_utf8(status_line(r.code) + "\r\n"@)),
        Some(b) => match payload_of(r) {
            None => None,
            Some(p) => Some(
                encode_utf8(
                    status_line(r.code) + content_type_line(r.content_type) + length_line(p.len())
                        + encoding_line(r.gzip_encoding) + "\r\n"@,
                ) + p,
            ),
        },
    }
}

/// Whether `s[i..j]` is one of the comma-separated items of `s`.
pub open spec fn is_item(s: Seq<char>, i: int, j: int) -> bool {
    &&& 0 <= i <= j <= s.len()
    &&& i == 0 || s[i - 1] == ','
    &&& j == s.len() || s[j] == ','
    &&& forall|k: int| i <= k < j ==> s[k] != ','
}

/// Whether the item `s[i..j]`, trimmed and lower-cased, reads `gzip`.
pub open spec fn item_is_gzip(s: Seq<char>, i: int, j: int) -> bool {
    lower_of(trim_ws(s.subrange(i, j))) == "gzip"@
}

/// Whether an `Accept-Encoding` value lists `gzip`.
pub open spec fn accepts_gzip(s: Seq<char>) -> bool {
    exists|i: int, j: int| #[trigger] is_item(s, i, j) && item_is_gzip(s, i, j)
}

/// Whether a request's headers ask for a gzip body.
pub open spec fn wants_gzip(headers: Map<Seq<char>, Seq<char>>) -> bool {
    headers.contains_key("accept-encoding"@) && accepts_gzip(headers["accept-encoding"@])
}

/// A response after negotiation with a request's headers: compression is
/// chosen when the request asks for it, and a present body is compressed.
pub open spec fn negotiated(r: ResponseView, headers: Map<Seq<char>, Seq<char>>) -> ResponseView {
    let g = wants_gzip(headers);
    ResponseView {
        code: r.code,
        body: r.body,
        content_type: r.content_type,
        gzip_encoding: g,
        encoded_body: match r.body {
            Some(b) => if g {
                Some(gzip_of(encode_utf8(b)))
            } else {
                None
            },
            None => None,
        },
    }
}

/// Why a response could not be encoded.
#[derive(Debug, Clone, Copy, PartialEq, Eq, Structural)]
pub enum EncodeError {
    /// The compressor reported an error.
    CompressionFailed,
    /// Compression was chosen but the response holds no compressed body.
    MissingEncodedBody,
}

/// Whether a comma-separated list names `gzip`, ignoring case and spaces
/// around each item.
fn lists_gzip(s: &str) -> (r: bool)
    ensures
        r == accepts_gzip(s@),
{
    let n = s.unicode_len();
    let mut start: usize = 0;
    loop
        invariant
            n == s@.len(),
            start <= n,
            start == 0 || s@[start - 1] == ',',
            forall|i: int, j: int| #[trigger]
                is_item(s@, i, j) && j < start ==> !item_is_gzip(s@, i, j),
        decreases n - start,
    {
        let end = find_char(s, start, ',');
        proof {
            lemma_char_pos(s@, start as int, ',');
        }
        assert(is_item(s@, start as int, end as int));
        let item = to_lower(trim_str(s.substring_char(start, end)));
        if str_eq(item.as_str(), "gzip") {
            assert(item_is_gzip(s@, start as int, end as int));
            return true;
        }
        assert forall|i: int, j: int| #[trigger]
            is_item(s@, i, j) && j <= end implies !item_is_gzip(s@, i, j) by {
            if j >= start {
                if j < end {
                    assert(s@[j] != ',');
                }
                if i < start {
                    assert(s@[start - 1] == ',');
                }
                if i > start {
                    assert(s@[i - 1] == ',');
                }
            }
        }
        if end >= n {
            return false;
        }
        start = end + 1;
    }
}

/// Whether an `Accept-Encoding` value, if there is one, lists `gzip`.
pub fn is_gzip_encoding_requested(requested_encodings: Option<&String>) -> (r: bool)
    ensures
        r == match requested_encodings {
            Some(s) => accepts_gzip(s@),
            None => false,
        },
{
    match requested_encodings {
        Some(s) => lists_gzip(s.as_str()),
        None => false,
    }
}

/// Appends `b` to `out`.
fn append_bytes(out: &mut Vec<u8>, b: &[u8])
    ensures
        final(out)@ == old(out)@ + b@,
{
    let mut i: usize = 0;
    while i < b.len()
        invariant
            0 <= i <= b@.len(),
            out@ == old(out)@ + b@.take(i as int),
        decreases b@.len() - i,
    {
        out.push(b[i]);
        assert(b@.take(i + 1) =~= b@.take(i as int).push(b@[i as int]));
        assert(out@ =~= old(out)@ + b@.take(i + 1));
        i = i + 1;
    }
    assert(b@.take(b@.len() as int) =~= b@);
}

impl Response {
    pub open spec fn view(&self) -> ResponseView {
        ResponseView {
            code: self.code,
            body: opt_chars(self.body),
            content_type: self.content_type,
            gzip_encoding: self.gzip_encoding,
            encoded_body: match self.encoded_body {
                Some(v) => Some(v@),
                None => None,
            },
        }
    }

    /// The `Content-Type` header line.
    pub fn content_type_header(&self) -> (r: String)
        ensures
            r@ == content_type_line(self.content_type),
    {
        match self.content_type {
            ContentType::TextPlain => "Content-Type: text/plain\r\n".to_owned(),
            ContentType::ApplicationOctetStream => "Content-Type: application/octet-stream\r\n".to_owned(),
        }
    }

    /// The `Content-Length` header line, measuring the bytes that are sent:
    /// none without a body, or when a compressed body is missing.
    pub fn content_length_header(&self) -> (r: Option<String>)
        ensures
            match payload_of(self.view()) {
                Some(p) => r is Some && r->Some_0@ == length_line(p.len()),
                None => r is None,
            },
    {
        let body = match &self.body {
            Some(b) => b,
            None => return None,
        };
        let length = if self.gzip_encoding {
            match &self.encoded_body {
                Some(e) => e.len(),
                None => return None,
            }
        } else {
            body.as_str().as_bytes().len()
        };
        let mut line = String::new();
        line.append("Content-Length: ");
        let digits = usize_text(length);
        line.append(digits.as_str());
        line.append("\r\n");
        assert(line@ =~= length_line(length as nat));
        Some(line)
    }

    /// Chooses compression from the request's `Accept-Encoding` header and,
    /// when it is chosen and there is a body, compresses the body.
    pub fn encode_body(&mut self, request: &Request) -> (r: Result<(), EncodeError>)
        ensures
            final(self).code == old(self).code,
            final(self).body == old(self).body,
            final(self).content_type == old(self).content_type,
            final(self).gzip_encoding == wants_gzip(request.headers@),
            match r {
                Ok(()) => final(self).view() == negotiated(old(self).view(), request.headers@),
                Err(e) => e == EncodeError::CompressionFailed && wants_gzip(request.headers@)
                    && old(self).body is Some,
            },
    {
        let gzip = is_gzip_encoding_requested(request.headers.get("accept-encoding"));
        self.gzip_encoding = gzip;
        self.encoded_body = None;
        if gzip {
            match &self.body {
                Some(b) => {
                    match gzip_bytes(b.as_str().as_bytes()) {
                        Some(v) => {
                            self.encoded_body = Some(v);
                        },
                        None => return Err(EncodeError::CompressionFailed),
                    }
                },
                None => {},
            }
        }
        Ok(())
    }

    /// The response as it goes on the wire.
    pub fn to_wire(&self) -> (r: Result<Vec<u8>, EncodeError>)
        ensures
            match r {
                Ok(v) => wire_of(self.view()) == Some(v@),
                Err(e) => wire_of(self.view()) is None && e == EncodeError::MissingEncodedBody,
            },
    {
        let mut head = String::new();
        head.append("HTTP/1.1 ");
        let status = self.code.status_text();
        head.append(status.as_str());
        head.append("\r\n");
        match &self.body {
            None => {
                head.append("\r\n");
                let out = slice_to_vec(head.as_str().as_bytes());
                assert(head@ =~= status_line(self.code) + "\r\n"@);
                Ok(out)
            },
            Some(b) => {
                let len_line = match self.content_length_header() {
                    Some(l) => l,
                    None => return Err(EncodeError::MissingEncodedBody),
                };
                let type_line = self.content_type_header();
                head.append(type_line.as_str());
                head.append(len_line.as_str());
                if self.gzip_encoding {
                    head.append("Content-Encoding: gzip\r\n");
                }
                head.append("\r\n");
                let mut out = slice_to_vec(head.as_str().as_bytes());
                let ghost p = payload_of(self.view())->Some_0;
                if self.gzip_encoding {
                    match &self.encoded_body {
                        Some(e) => append_bytes(&mut out, e.as_slice()),
                        None => return Err(EncodeError::MissingEncodedBody),
                    }
                } else {
                    append_bytes(&mut out, b.as_str().as_bytes());
                }
                assert(head@ =~= status_line(self.code) + content_type_line(self.content_type)
                    + length_line(p.len()) + encoding_line(self.gzip_encoding) + "\r\n"@);
                Ok(out)
            },
        }
    }
}

/// Negotiates compression for `response` with `request` and encodes it for
/// the wire. It fails only when compression was chosen for a body and the
/// compressor reported an error.
pub fn encode_response(response: Response, request: &Request) -> (r: Result<Vec<u8>, EncodeError>)
    ensures
        match r {
            Ok(v) => wire_of(negotiated(response.view(), request.headers@)) == Some(v@),
            Err(e) => e == EncodeError::CompressionFailed && wants_gzip(request.headers@)
                && response.body is Some,
        },
{
    let mut response = response;
    match response.encode_body(request) {
        Ok(()) => {},
        Err(e) => return Err(e),
    }
    response.to_wire()
}

} // verus!
