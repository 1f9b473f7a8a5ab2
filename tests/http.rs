use std::io::Read;

use flate2::read::GzDecoder;
use http_rs::headers::Headers;
use http_rs::method::{Method, ParseError};
use http_rs::reader::{take_chunk, CHUNK_SIZE};
use http_rs::request::{parse_raw_request, split_header, Request};
use http_rs::response::{
    encode_response, is_gzip_encoding_requested, ContentType, EncodeError, HttpCode, Response,
};
use http_rs::routes::{
    echo, file_read_response, file_saved_response, handle_file, home, path_segments, router,
    save_file, user_agent, Route, RouteError,
};
use http_rs::text::{parse_usize, str_eq};

fn parse(raw: &str) -> Request {
    parse_raw_request(raw.as_bytes().to_vec()).expect("request parses")
}

fn respond(route: Result<Route, RouteError>) -> Response {
    match route.expect("request routes") {
        Route::Respond(r) => r,
        other => panic!("expected a response, got {:?}", other),
    }
}

fn split_wire(bytes: &[u8]) -> (String, Vec<u8>) {
    let at = bytes
        .windows(4)
        .position(|w| w == b"\r\n\r\n")
        .expect("blank line after the head");
    (
        String::from_utf8(bytes[..at + 4].to_vec()).unwrap(),
        bytes[at + 4..].to_vec(),
    )
}

fn gunzip(bytes: &[u8]) -> Vec<u8> {
    let mut out = Vec::new();
    GzDecoder::new(bytes).read_to_end(&mut out).unwrap();
    out
}

#[test]
fn echo_route_returns_segment() {
    let req = parse("GET /echo/abc HTTP/1.1\r\nHost: localhost:4221\r\n\r\n");
    let resp = respond(router(&req, None));
    assert_eq!(resp.code, HttpCode::Success);
    assert_eq!(resp.body.as_deref(), Some("abc"));
    assert_eq!(resp.content_type, ContentType::TextPlain);
    let bytes = encode_response(resp, &req).unwrap();
    assert_eq!(
        bytes,
        b"HTTP/1.1 200 Ok\r\nContent-Type: text/plain\r\nContent-Length: 3\r\n\r\nabc".to_vec()
    );
}

#[test]
fn echo_ignores_deeper_segments() {
    let req = parse("GET /echo/one/two HTTP/1.1\r\n\r\n");
    let resp = respond(router(&req, None));
    assert_eq!(resp.body.as_deref(), Some("one"));
}

#[test]
fn echo_without_segment_is_an_error() {
    let req = parse("GET /echo HTTP/1.1\r\n\r\n");
    assert_eq!(router(&req, None).err(), Some(RouteError::MissingEchoSegment));
    assert!(echo(None).is_err());
}

#[test]
fn gzip_body_round_trips() {
    let req = parse("GET /echo/hello-gzip HTTP/1.1\r\nAccept-Encoding: deflate, gzip\r\n\r\n");
    let resp = respond(router(&req, None));
    let bytes = encode_response(resp, &req).unwrap();
    let (head, body) = split_wire(&bytes);
    assert!(head.contains("Content-Encoding: gzip\r\n"));
    assert!(head.contains(&format!("Content-Length: {}\r\n", body.len())));
    assert_ne!(body, b"hello-gzip".to_vec());
    assert_eq!(gunzip(&body), b"hello-gzip".to_vec());
}

#[test]
fn gzip_not_used_when_not_listed() {
    let req = parse("GET /echo/plain HTTP/1.1\r\nAccept-Encoding: deflate, br\r\n\r\n");
    let resp = respond(router(&req, None));
    let bytes = encode_response(resp, &req).unwrap();
    let (head, body) = split_wire(&bytes);
    assert!(!head.contains("Content-Encoding"));
    assert_eq!(body, b"plain".to_vec());
}

#[test]
fn gzip_request_detection() {
    let gzip = "gzip".to_string();
    let upper = " GZIP ".to_string();
    let list = "br, deflate,gzip".to_string();
    let other = "x-gzip, br".to_string();
    let with_weight = "gzip;q=1".to_string();
    assert!(is_gzip_encoding_requested(Some(&gzip)));
    assert!(is_gzip_encoding_requested(Some(&upper)));
    assert!(is_gzip_encoding_requested(Some(&list)));
    assert!(!is_gzip_encoding_requested(Some(&other)));
    assert!(!is_gzip_encoding_requested(Some(&with_weight)));
    assert!(!is_gzip_encoding_requested(None));
}

#[test]
fn user_agent_is_reflected() {
    let req = parse("GET /user-agent HTTP/1.1\r\nHost: x\r\nUser-Agent: test-agent/1.0\r\n\r\n");
    let resp = respond(router(&req, None));
    assert_eq!(resp.code, HttpCode::Success);
    assert_eq!(resp.body.as_deref(), Some("test-agent/1.0"));
    let direct = user_agent(&req);
    assert_eq!(direct.body.as_deref(), Some("test-agent/1.0"));
}

#[test]
fn user_agent_missing_gives_no_body() {
    let req = parse("GET /user-agent HTTP/1.1\r\n\r\n");
    let resp = respond(router(&req, None));
    assert_eq!(resp.code, HttpCode::Success);
    assert_eq!(resp.body, None);
    let bytes = encode_response(resp, &req).unwrap();
    assert_eq!(bytes, b"HTTP/1.1 200 Ok\r\n\r\n".to_vec());
}

#[test]
fn write_then_read_same_file() {
    let post = parse("POST /files/notes.txt HTTP/1.1\r\nContent-Length: 5\r\n\r\nhello");
    let dir = Some("/srv/data".to_string());
    let (write_path, written) = match router(&post, dir.clone()).unwrap() {
        Route::WriteFile(p, c) => (p, c),
        other => panic!("expected a write, got {:?}", other),
    };
    assert_eq!(write_path, "/srv/data/notes.txt");
    assert_eq!(written, "hello");
    let saved = file_saved_response();
    assert_eq!(saved.code, HttpCode::Created);
    assert_eq!(saved.body, None);

    let get = parse("GET /files/notes.txt HTTP/1.1\r\n\r\n");
    let read_path = match router(&get, dir).unwrap() {
        Route::ReadFile(p) => p,
        other => panic!("expected a read, got {:?}", other),
    };
    assert_eq!(read_path, write_path);
    let resp = file_read_response(Some(written));
    assert_eq!(resp.code, HttpCode::Success);
    assert_eq!(resp.body.as_deref(), Some("hello"));
    assert_eq!(resp.content_type, ContentType::ApplicationOctetStream);
}

#[test]
fn missing_file_is_not_found() {
    let get = parse("GET /files/absent HTTP/1.1\r\n\r\n");
    match router(&get, Some("/tmp".to_string())).unwrap() {
        Route::ReadFile(p) => assert_eq!(p, "/tmp/absent"),
        other => panic!("expected a read, got {:?}", other),
    }
    let resp = file_read_response(None);
    assert_eq!(resp.code, HttpCode::NotFound);
    assert_eq!(resp.body, None);
    assert_eq!(
        encode_response(resp, &get).unwrap(),
        b"HTTP/1.1 404 Not Found\r\n\r\n".to_vec()
    );
}

#[test]
fn files_without_directory_or_name() {
    let get = parse("GET /files/x HTTP/1.1\r\n\r\n");
    assert_eq!(respond(router(&get, None)).code, HttpCode::YourFault);
    assert_eq!(
        respond(Ok(handle_file(None, Some("/d".to_string())))).code,
        HttpCode::NotFound
    );
    let post = parse("POST /files HTTP/1.1\r\nContent-Length: 0\r\n\r\n");
    assert_eq!(respond(router(&post, Some("/d".to_string()))).code, HttpCode::YourFault);
    assert_eq!(respond(Ok(save_file(None, Some("a"), &post))).code, HttpCode::YourFault);
    let no_body = parse("GET /files/a HTTP/1.1\r\n\r\n");
    assert_eq!(
        respond(Ok(save_file(Some("/d".to_string()), Some("a"), &no_body))).code,
        HttpCode::YourFault
    );
}

#[test]
fn post_without_content_length_fails() {
    let raw = b"POST /files/a HTTP/1.1\r\nHost: x\r\n\r\nbody".to_vec();
    assert_eq!(parse_raw_request(raw).err(), Some(ParseError::MissingContentLength));
}

#[test]
fn truncated_body_fails() {
    let raw = b"POST /files/a HTTP/1.1\r\nContent-Length: 10\r\n\r\nshort".to_vec();
    assert_eq!(parse_raw_request(raw).err(), Some(ParseError::TruncatedBody));
}

#[test]
fn invalid_content_length_fails() {
    for value in ["abc", "-1", "", "+", "99999999999999999999999"] {
        let raw = format!("POST /files/a HTTP/1.1\r\nContent-Length: {value}\r\n\r\nx");
        assert_eq!(
            parse_raw_request(raw.into_bytes()).err(),
            Some(ParseError::InvalidContentLength),
            "value {value:?}"
        );
    }
}

#[test]
fn body_is_exactly_content_length_bytes() {
    let req = parse("POST /files/a HTTP/1.1\r\nContent-Length: +3\r\n\r\nabcdef");
    assert_eq!(req.method, Method::Post);
    assert_eq!(req.body.as_deref(), Some("abc"));
}

#[test]
fn non_utf8_parts_fail() {
    let mut raw = b"GET /".to_vec();
    raw.push(0xff);
    raw.extend_from_slice(b" HTTP/1.1\r\n\r\n");
    assert_eq!(parse_raw_request(raw).err(), Some(ParseError::PathNotUtf8));

    let mut raw = b"POST /files/a HTTP/1.1\r\nContent-Length: 1\r\n\r\n".to_vec();
    raw.push(0xc3);
    assert_eq!(parse_raw_request(raw).err(), Some(ParseError::BodyNotUtf8));

    let mut raw = b"GET / HTTP/1.1\r\nX: ".to_vec();
    raw.push(0xfe);
    raw.extend_from_slice(b"\r\n\r\n");
    assert_eq!(parse_raw_request(raw).err(), Some(ParseError::HeaderNotUtf8));

    let raw = vec![0xff, b' ', b'/'];
    assert_eq!(parse_raw_request(raw).err(), Some(ParseError::MethodNotUtf8));
}

#[test]
fn unknown_method_fails() {
    let raw = b"PUT / HTTP/1.1\r\n\r\n".to_vec();
    assert_eq!(parse_raw_request(raw).err(), Some(ParseError::UnknownMethod));
    assert_eq!(parse_raw_request(Vec::new()).err(), Some(ParseError::UnknownMethod));
}

#[test]
fn method_is_case_insensitive() {
    let req = parse("get /echo/x HTTP/1.1\r\n\r\n");
    assert_eq!(req.method, Method::Get);
    let req = parse("pOsT /x HTTP/1.1\r\ncontent-length: 0\r\n\r\n");
    assert_eq!(req.method, Method::Post);
    assert_eq!(req.body.as_deref(), Some(""));
}

#[test]
fn request_line_fields() {
    let req = parse("GET /echo/x HTTP/1.1\r\n\r\n");
    assert_eq!(req.path, "/echo/x");
    assert_eq!(req.protocol, "HTTP/1.1");
    assert_eq!(req.body, None);
}

#[test]
fn headers_are_lowercased_trimmed_and_overwritten() {
    let req = parse(
        "GET / HTTP/1.1\r\nX-Thing:  first \r\nno colon here\r\nx-thing: second:part\r\n\r\n",
    );
    assert_eq!(req.headers.get("x-thing").map(|s| s.as_str()), Some("second:part"));
    assert_eq!(req.headers.get("X-Thing"), None);
    assert_eq!(req.headers.get("no colon here"), None);
}

#[test]
fn header_block_ends_at_blank_line() {
    let req = parse("GET / HTTP/1.1\r\nA: 1\r\n   \r\nB: 2\r\n\r\n");
    assert!(req.headers.get("a").is_some());
    assert_eq!(req.headers.get("b"), None);
}

#[test]
fn split_header_at_first_colon() {
    let (name, value) = split_header(" Content-TYPE :  text/x:y \r\n").unwrap();
    assert_eq!(name, "content-type");
    assert_eq!(value, "text/x:y");
    assert_eq!(split_header("nothing"), None);
}

#[test]
fn header_map_operations() {
    let mut h = Headers::new();
    assert_eq!(h.get("a"), None);
    h.insert("a".to_string(), "1".to_string());
    h.insert("b".to_string(), "2".to_string());
    h.insert("a".to_string(), "3".to_string());
    assert_eq!(h.get("a").map(|s| s.as_str()), Some("3"));
    assert_eq!(h.get("b").map(|s| s.as_str()), Some("2"));
}

#[test]
fn root_is_empty_ok_whatever_the_headers() {
    let req = parse("GET / HTTP/1.1\r\nAccept-Encoding: gzip\r\nUser-Agent: z\r\n\r\n");
    let resp = respond(router(&req, None));
    assert_eq!(resp.code, HttpCode::Success);
    assert_eq!(resp.body, None);
    assert_eq!(encode_response(resp, &req).unwrap(), b"HTTP/1.1 200 Ok\r\n\r\n".to_vec());
    let bare = parse("POST // HTTP/1.1\r\nContent-Length: 0\r\n\r\n");
    assert_eq!(respond(router(&bare, None)).code, HttpCode::Success);
    assert_eq!(home().body, None);
}

#[test]
fn unknown_segment_is_not_found() {
    for raw in [
        "GET /nope HTTP/1.1\r\n\r\n",
        "POST /nope/deeper HTTP/1.1\r\nContent-Length: 0\r\n\r\n",
    ] {
        let req = parse(raw);
        let resp = respond(router(&req, Some("/d".to_string())));
        assert_eq!(resp.code, HttpCode::NotFound);
        assert_eq!(resp.body, None);
    }
}

#[test]
fn path_segments_split() {
    assert_eq!(path_segments("/echo/abc/"), ("echo", Some("abc")));
    assert_eq!(path_segments("///files//x"), ("files", Some("")));
    assert_eq!(path_segments("/"), ("", None));
    assert_eq!(path_segments("user-agent"), ("user-agent", None));
    assert_eq!(path_segments("/é/ü"), ("é", Some("ü")));
}

#[test]
fn content_length_counts_bytes() {
    let req = parse("GET /echo/h%C3%A9 HTTP/1.1\r\n\r\n");
    let resp = Response {
        code: HttpCode::Success,
        body: Some("héllo wörld, 12345".to_string()),
        content_type: ContentType::TextPlain,
        gzip_encoding: false,
        encoded_body: None,
    };
    let bytes = encode_response(resp, &req).unwrap();
    let (head, body) = split_wire(&bytes);
    assert_eq!(body.len(), 20);
    assert!(head.contains("Content-Length: 20\r\n"));
}

#[test]
fn missing_encoded_body_is_reported() {
    let resp = Response {
        code: HttpCode::Success,
        body: Some("x".to_string()),
        content_type: ContentType::TextPlain,
        gzip_encoding: true,
        encoded_body: None,
    };
    assert_eq!(resp.to_wire().err(), Some(EncodeError::MissingEncodedBody));
    assert_eq!(resp.content_length_header(), None);
}

#[test]
fn status_texts() {
    assert_eq!(HttpCode::Success.status_text(), "200 Ok");
    assert_eq!(HttpCode::Created.status_text(), "201 Created");
    assert_eq!(HttpCode::YourFault.status_text(), "400 Bad Request");
    assert_eq!(HttpCode::NotFound.status_text(), "404 Not Found");
}

#[test]
fn octet_stream_header() {
    let resp = file_read_response(Some("data".to_string()));
    assert_eq!(resp.content_type_header(), "Content-Type: application/octet-stream\r\n");
    assert_eq!(resp.content_length_header().as_deref(), Some("Content-Length: 4\r\n"));
}

#[test]
fn usize_parsing() {
    assert_eq!(parse_usize("0"), Some(0));
    assert_eq!(parse_usize("+42"), Some(42));
    assert_eq!(parse_usize("18446744073709551615"), Some(usize::MAX));
    assert_eq!(parse_usize("18446744073709551616"), None);
    assert_eq!(parse_usize(" 1"), None);
    assert_eq!(parse_usize("1a"), None);
}

#[test]
fn string_equality() {
    assert!(str_eq("héllo", "héllo"));
    assert!(!str_eq("hello", "hellO"));
    assert!(!str_eq("a", "ab"));
}

#[test]
fn reading_stops_after_short_or_empty_chunk() {
    let mut buffer = b"GET".to_vec();
    assert!(!take_chunk(&mut buffer, b" / HTTP/1.1\r\n\r\n"));
    assert_eq!(buffer, b"GET / HTTP/1.1\r\n\r\n".to_vec());
    let full = vec![b'a'; CHUNK_SIZE];
    assert!(take_chunk(&mut buffer, &full));
    assert_eq!(buffer.len(), 18 + CHUNK_SIZE);
    assert!(!take_chunk(&mut buffer, &[]));
    assert_eq!(buffer.len(), 18 + CHUNK_SIZE);
}

#[test]
fn method_from_upper_text() {
    assert_eq!(Method::from_upper_text(" GET "), Ok(Method::Get));
    assert_eq!(Method::from_upper_text("POST\t"), Ok(Method::Post));
    assert_eq!(Method::from_upper_text("get"), Err(ParseError::UnknownMethod));
    assert_eq!(Method::from_token(b"post ".to_vec()), Ok(Method::Post));
}
