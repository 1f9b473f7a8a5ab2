//! Request methods.
use vstd::prelude::*;
use vstd::utf8::*;
use crate::text::{str_eq, string_from_utf8, to_upper, trim_str, trim_ws, upper_of};

verus! {

/// The request methods this server answers.
#[derive(Debug, Clone, Copy, PartialEq, Eq, Structural)]
pub enum Method {
    Get,
    Post,
}

/// Why a request could not be parsed.
#[derive(Debug, Clone, Copy, PartialEq, Eq, Structural)]
pub enum ParseError {
    /// The method token is not UTF-8.
    MethodNotUtf8,
    /// The method token names neither `GET` nor `POST`.
    UnknownMethod,
    /// The path token is not UTF-8.
    PathNotUtf8,
    /// The protocol line is not UTF-8.
    ProtocolNotUtf8,
    /// A header line is not UTF-8.
    HeaderNotUtf8,
    /// A `POST` came without a `content-length` header.
    MissingContentLength,
    /// The `content-length` value is not a number that fits a `usize`.
    InvalidContentLength,
    /// Fewer body bytes arrived than `content-length` announced.
    TruncatedBody,
    /// The body is not UTF-8.
    BodyNotUtf8,
}

/// The method that a raw method token names: upper-cased and trimmed, it must
/// read `GET` or `POST`.
pub open spec fn method_of(token: Seq<u8>) -> Result<Method, ParseError> {
    if !valid_utf8(token) {
        Err(ParseError::MethodNotUtf8)
    } else {
        let t = trim_ws(upper_of(decode_utf8(token)));
        if t == "GET"@ {
            Ok(Method::Get)
        } else if t == "POST"@ {
            Ok(Method::Post)
        } else {
            Err(ParseError::UnknownMethod)
        }
    }
}

impl Method {
    /// Reads a method from its raw token, case-insensitively.
    pub fn from_token(token: Vec<u8>) -> (r: Result<Method, ParseError>)
        ensures
            r == method_of(token@),
    {
        let ghost bytes = token@;
        let text = match string_from_utf8(token) {
            Some(t) => t,
            None => return Err(ParseError::MethodNotUtf8),
        };
        let upper = to_upper(text.as_str());
        Method::from_upper_text(upper.as_str())
    }

    /// Reads a method from upper-cased token text: trimmed, it must read
    /// `GET` or `POST`.
    pub fn from_upper_text(upper: &str) -> (r: Result<Method, ParseError>)
        ensures
            r == (if trim_ws(upper@) == "GET"@ {
                Ok(Method::Get)
            } else if trim_ws(upper@) == "POST"@ {
                Ok(Method::Post)
            } else {
                Err(ParseError::UnknownMethod)
            }),
    {
        let t = trim_str(upper);
        if str_eq(t, "GET") {
            Ok(Method::Get)
        } else if str_eq(t, "POST") {
            Ok(Method::Post)
        } else {
            Err(ParseError::UnknownMethod)
        }
    }
}

} // verus!
