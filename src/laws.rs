//! Properties that relate the parser, the router and the encoder.
use vstd::prelude::*;
use vstd::utf8::*;
use crate::gzip::gzip_of;
use crate::method::Method;
use crate::request::{body_of, header_block, request_of, RequestView};
use crate::response::{
    bare, content_type_line, length_line, negotiated, status_line, wants_gzip, wire_of,
    with_body, ContentType, HttpCode, ResponseView,
};
use crate::routes::{
    file_path, first_segment, lemma_trim_end_char, lemma_trim_start_char, read_response_of,
    route_of, second_segment, strip_slashes, RouteView,
};
use crate::text::{lemma_char_pos_at, usize_of_text};

verus! {

/// A path `/<w>/<s>`, with `w` and `s` non-empty and free of slashes, has `w`
/// as its first segment and `s` as its second.
pub proof fn lemma_two_segments(w: Seq<char>, s: Seq<char>)
    requires
        w.len() > 0,
        s.len() > 0,
        forall|i: int| 0 <= i < w.len() ==> w[i] != '/',
        forall|i: int| 0 <= i < s.len() ==> s[i] != '/',
    ensures
        first_segment("/"@ + w + "/"@ + s) == w,
        second_segment("/"@ + w + "/"@ + s) == Some(s),
{
    reveal_strlit("/");
    let path = "/"@ + w + "/"@ + s;
    let t = w + "/"@ + s;
    assert(path[1] == w[0]);
    lemma_trim_start_char(path, '/', 1);
    assert(path.subrange(1, path.len() as int) =~= t);
    assert(t.last() == s.last());
    lemma_trim_end_char(t, '/', t.len() as int);
    assert(t.subrange(0, t.len() as int) =~= t);
    assert(strip_slashes(path) == t);
    assert forall|k: int| 0 <= k < w.len() implies t[k] != '/' by {
        assert(t[k] == w[k]);
    }
    lemma_char_pos_at(t, 0, '/', w.len() as int);
    assert forall|k: int| w.len() + 1 <= k < t.len() implies t[k] != '/' by {
        assert(t[k] == s[k - w.len() - 1]);
    }
    lemma_char_pos_at(t, w.len() as int + 1, '/', t.len() as int);
    assert(t.take(w.len() as int) =~= w);
    assert(t.subrange(w.len() as int + 1, t.len() as int) =~= s);
}

/// `GET /echo/<s>`, for a non-empty segment `s` without slashes, answers 200
/// with exactly `s` as a plain-text body.
pub proof fn echo_answers_its_segment(req: RequestView, dir: Option<Seq<char>>, s: Seq<char>)
    requires
        req.method == Method::Get,
        req.path == "/echo/"@ + s,
        s.len() > 0,
        forall|i: int| 0 <= i < s.len() ==> s[i] != '/',
    ensures
        route_of(req, dir) == Ok::<RouteView, crate::routes::RouteError>(
            RouteView::Respond(with_body(HttpCode::Success, s, ContentType::TextPlain)),
        ),
{
    reveal_strlit("/echo/");
    reveal_strlit("echo");
    reveal_strlit("/");
    assert("/echo/"@ + s =~= "/"@ + "echo"@ + "/"@ + s);
    lemma_two_segments("echo"@, s);
}

/// When the request asks for gzip and the response has a body, what is sent
/// is the gzip stream of the body's bytes, announced by `Content-Encoding`,
/// with `Content-Length` counting the compressed bytes.
pub proof fn gzip_body_is_sent_compressed(
    r: ResponseView,
    headers: Map<Seq<char>, Seq<char>>,
    b: Seq<char>,
)
    requires
        wants_gzip(headers),
        r.body == Some(b),
    ensures
        wire_of(negotiated(r, headers)) == Some(
            encode_utf8(
                status_line(r.code) + content_type_line(r.content_type) + length_line(
                    gzip_of(encode_utf8(b)).len(),
                ) + "Content-Encoding: gzip\r\n"@ + "\r\n"@,
            ) + gzip_of(encode_utf8(b)),
        ),
{
}

/// `GET /` answers 200 with no body, whatever the headers: with or without
/// gzip, only the status line and the blank line are sent.
pub proof fn root_answers_empty(req: RequestView, dir: Option<Seq<char>>)
    requires
        req.path == "/"@,
    ensures
        route_of(req, dir) == Ok::<RouteView, crate::routes::RouteError>(
            RouteView::Respond(bare(HttpCode::Success)),
        ),
        wire_of(negotiated(bare(HttpCode::Success), req.headers)) == Some(
            encode_utf8(status_line(HttpCode::Success) + "\r\n"@),
        ),
{
    reveal_strlit("/");
    let path = req.path;
    lemma_trim_start_char(path, '/', 1);
    let t = path.subrange(1, 1);
    assert(t =~= Seq::<char>::empty());
    assert(strip_slashes(path) =~= Seq::<char>::empty());
    assert(first_segment(path) =~= Seq::<char>::empty());
}

/// A path whose first segment is none of the known ones answers 404 with no
/// body, whatever the method.
pub proof fn unknown_segment_is_not_found(req: RequestView, dir: Option<Seq<char>>)
    requires
        first_segment(req.path).len() > 0,
        first_segment(req.path) != "echo"@,
        first_segment(req.path) != "user-agent"@,
        first_segment(req.path) != "files"@,
    ensures
        route_of(req, dir) == Ok::<RouteView, crate::routes::RouteError>(
            RouteView::Respond(bare(HttpCode::NotFound)),
        ),
{
}

/// `POST /files/<name>` with body `B` under directory `D`, then
/// `GET /files/<name>`: the write puts `B` in the very file that the read
/// opens; the write answers 201 and, reading back `B`, the read answers 200
/// with `B`.
pub proof fn written_file_reads_back(
    post: RequestView,
    get: RequestView,
    d: Seq<char>,
    name: Seq<char>,
    b: Seq<char>,
)
    requires
        post.method == Method::Post,
        get.method == Method::Get,
        post.path == "/files/"@ + name,
        get.path == "/files/"@ + name,
        post.body == Some(b),
        name.len() > 0,
        forall|i: int| 0 <= i < name.len() ==> name[i] != '/',
    ensures
        route_of(post, Some(d)) == Ok::<RouteView, crate::routes::RouteError>(
            RouteView::WriteFile(file_path(d, name), b),
        ),
        route_of(get, Some(d)) == Ok::<RouteView, crate::routes::RouteError>(
            RouteView::ReadFile(file_path(d, name)),
        ),
        read_response_of(Some(b)) == with_body(
            HttpCode::Success,
            b,
            ContentType::ApplicationOctetStream,
        ),
{
    reveal_strlit("/files/");
    reveal_strlit("files");
    reveal_strlit("echo");
    reveal_strlit("user-agent");
    reveal_strlit("/");
    assert("files"@ != "echo"@ && "files"@ != "user-agent"@) by {
        assert("files"@.len() != "echo"@.len());
        assert("files"@.len() != "user-agent"@.len());
    }
    assert("/files/"@ + name =~= "/"@ + "files"@ + "/"@ + name);
    lemma_two_segments("files"@, name);
}

/// `GET /files/<name>` under a directory reads `<directory>/<name>`, and when
/// no such file exists the answer is 404 with no body.
pub proof fn missing_file_is_not_found(get: RequestView, d: Seq<char>, name: Seq<char>)
    requires
        get.method == Method::Get,
        get.path == "/files/"@ + name,
        name.len() > 0,
        forall|i: int| 0 <= i < name.len() ==> name[i] != '/',
    ensures
        route_of(get, Some(d)) == Ok::<RouteView, crate::routes::RouteError>(
            RouteView::ReadFile(file_path(d, name)),
        ),
        read_response_of(None) == bare(HttpCode::NotFound),
{
    reveal_strlit("/files/");
    reveal_strlit("files");
    reveal_strlit("echo");
    reveal_strlit("user-agent");
    reveal_strlit("/");
    assert("files"@ != "echo"@ && "files"@ != "user-agent"@) by {
        assert("files"@.len() != "echo"@.len());
        assert("files"@.len() != "user-agent"@.len());
    }
    assert("/files/"@ + name =~= "/"@ + "files"@ + "/"@ + name);
    lemma_two_segments("files"@, name);
}

/// A buffer parses as a `POST` only if its headers hold a `content-length`
/// and exactly that many body bytes follow: a `POST` without one is refused,
/// never given a partial body.
pub proof fn post_needs_content_length(buf: Seq<u8>)
    ensures
        match request_of(buf) {
            Ok(req) => req.method == Method::Post ==> {
                &&& req.headers.contains_key("content-length"@)
                &&& req.body is Some
                &&& usize_of_text(req.headers["content-length"@]) == Some(
                    encode_utf8(req.body->Some_0).len(),
                )
            },
            Err(_) => true,
        },
{
    match request_of(buf) {
        Ok(req) => {
            if req.method == Method::Post {
                let m_end = crate::request::scan_past(buf, 0, crate::request::SPACE);
                let p_end = crate::request::scan_past(buf, m_end, crate::request::SPACE);
                let l_end = crate::request::scan_past(buf, p_end, crate::request::NEWLINE);
                crate::request::lemma_scan_past(buf, 0, crate::request::SPACE);
                crate::request::lemma_scan_past(buf, m_end, crate::request::SPACE);
                crate::request::lemma_scan_past(buf, p_end, crate::request::NEWLINE);
                crate::request::lemma_header_block_end(buf, l_end, Map::empty());
                let block = header_block(buf, l_end, Map::empty())->Ok_0;
                assert(body_of(buf, block.1, block.0) is Ok);
                assert(block.0 == req.headers);
                let n = usize_of_text(block.0["content-length"@])->Some_0;
                let bytes = buf.subrange(block.1, block.1 + n);
                assert(valid_utf8(bytes));
                assert(req.body == Some(decode_utf8(bytes)));
                decode_utf8_encode_utf8(bytes);
                assert(bytes.len() == n);
            }
        },
        Err(_) => {},
    }
}

} // verus!
