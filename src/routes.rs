//! Routing a parsed request to its handler by the first path segment.
//!
//! Handlers that touch the filesystem do not do so here: they answer with the
//! file operation to perform, and the caller turns its outcome into a
//! response with `file_read_response` or `file_saved_response`.
use vstd::prelude::*;
use vstd::string::*;
use crate::method::Method;
use crate::request::{Request, RequestView};
use crate::response::{bare, with_body, ContentType, HttpCode, Response, ResponseView};
use crate::text::{char_pos, find_char, opt_chars, str_eq};

verus! {

/// What a routed request needs: a response right away, or a file operation
/// whose outcome makes the response.
#[derive(Debug)]
pub enum Route {
    /// Send this response.
    Respond(Response),
    /// Read the file at this path and answer with its contents.
    ReadFile(String),
    /// Write these contents to the file at this path.
    WriteFile(String, String),
}

/// A route, as values.
pub enum RouteView {
    Respond(ResponseView),
    ReadFile(Seq<char>),
    WriteFile(Seq<char>, Seq<char>),
}

impl Route {
    pub open spec fn view(&self) -> RouteView {
        match self {
            Route::Respond(r) => RouteView::Respond(r.view()),
            Route::ReadFile(p) => RouteView::ReadFile(p@),
            Route::WriteFile(p, c) => RouteView::WriteFile(p@, c@),
        }
    }
}

/// Why a request could not be routed.
#[derive(Debug, Clone, Copy, PartialEq, Eq, Structural)]
pub enum RouteError {
    /// `/echo` came without a segment to echo.
    MissingEchoSegment,
}

/// The characters of an optional string slice.
pub open spec fn opt_str(o: Option<&str>) -> Option<Seq<char>> {
    match o {
        Some(s) => Some(s@),
        None => None,
    }
}

/// `s` without the `c`s at its start.
pub open spec fn trim_start_char(s: Seq<char>, c: char) -> Seq<char>
    decreases s.len(),
{
    if s.len() > 0 && s[0] == c {
        trim_start_char(s.drop_first(), c)
    } else {
        s
    }
}

/// `s` without the `c`s at its end.
pub open spec fn trim_end_char(s: Seq<char>, c: char) -> Seq<char>
    decreases s.len(),
{
    if s.len() > 0 && s.last() == c {
        trim_end_char(s.drop_last(), c)
    } else {
        s
    }
}

/// A path without slashes at either end.
pub open spec fn strip_slashes(path: Seq<char>) -> Seq<char> {
    trim_end_char(trim_start_char(path, '/'), '/')
}

/// The first segment of a path: what precedes the first inner slash.
pub open spec fn first_segment(path: Seq<char>) -> Seq<char> {
    let t = strip_slashes(path);
    t.take(char_pos(t, 0, '/'))
}

/// The second segment of a path, if the path has one.
pub open spec fn second_segment(path: Seq<char>) -> Option<Seq<char>> {
    let t = strip_slashes(path);
    let k = char_pos(t, 0, '/');
    if k < t.len() {
        Some(t.subrange(k + 1, char_pos(t, k + 1, '/')))
    } else {
        None
    }
}

/// The file that a name stands for under a directory.
pub open spec fn file_path(dir: Seq<char>, name: Seq<char>) -> Seq<char> {
    dir + "/"@ + name
}

/// What `echo` answers.
pub open spec fn echo_of(segment: Option<Seq<char>>) -> Result<RouteView, RouteError> {
    match segment {
        Some(s) => Ok(RouteView::Respond(with_body(HttpCode::Success, s, ContentType::TextPlain))),
        None => Err(RouteError::MissingEchoSegment),
    }
}

/// What `user_agent` answers: the `user-agent` header, if any, as the body.
pub open spec fn user_agent_of(headers: Map<Seq<char>, Seq<char>>) -> ResponseView {
    ResponseView {
        code: HttpCode::Success,
        body: if headers.contains_key("user-agent"@) {
            Some(headers["user-agent"@])
        } else {
            None
        },
        content_type: ContentType::TextPlain,
        gzip_encoding: false,
        encoded_body: None,
    }
}

/// What `handle_file` answers: 400 without a directory, 404 without a name,
/// else a read of the named file.
pub open spec fn read_route_of(name: Option<Seq<char>>, dir: Option<Seq<char>>) -> RouteView {
    match dir {
        None => RouteView::Respond(bare(HttpCode::YourFault)),
        Some(d) => match name {
            None => RouteView::Respond(bare(HttpCode::NotFound)),
            Some(n) => RouteView::ReadFile(file_path(d, n)),
        },
    }
}

/// What `save_file` answers: 400 without a directory, a name or a body, else
/// a write of the body to the named file.
pub open spec fn write_route_of(
    dir: Option<Seq<char>>,
    name: Option<Seq<char>>,
    body: Option<Seq<char>>,
) -> RouteView {
    match (dir, name, body) {
        (Some(d), Some(n), Some(b)) => RouteView::WriteFile(file_path(d, n), b),
        _ => RouteView::Respond(bare(HttpCode::YourFault)),
    }
}

/// The answer to a file read: 404 when the file does not exist, else 200
/// with its contents as an octet stream.
pub open spec fn read_response_of(contents: Option<Seq<char>>) -> ResponseView {
    match contents {
        Some(c) => with_body(HttpCode::Success, c, ContentType::ApplicationOctetStream),
        None => bare(HttpCode::NotFound),
    }
}

/// Where a request goes, by the first segment of its path: the root, `echo`,
/// `user-agent`, `files` (read for `GET`, write for `POST`), or 404.
pub open spec fn route_of(req: RequestView, dir: Option<Seq<char>>) -> Result<RouteView, RouteError> {
    let first = first_segment(req.path);
    let second = second_segment(req.path);
    if first.len() == 0 {
        Ok(RouteView::Respond(bare(HttpCode::Success)))
    } else if first == "echo"@ {
        echo_of(second)
    } else if first == "user-agent"@ {
        Ok(RouteView::Respond(user_agent_of(req.headers)))
    } else if first == "files"@ {
        if req.method == Method::Get {
            Ok(read_route_of(second, dir))
        } else {
            Ok(write_route_of(dir, second, req.body))
        }
    } else {
        Ok(RouteView::Respond(bare(HttpCode::NotFound)))
    }
}

/// Dropping the leading `c`s of `s` leaves `s[a..]` when `a` is the first
/// position that holds no `c`.
pub proof fn lemma_trim_start_char(s: Seq<char>, c: char, a: int)
    requires
        0 <= a <= s.len(),
        forall|k: int| 0 <= k < a ==> s[k] == c,
        a == s.len() || s[a] != c,
    ensures
        trim_start_char(s, c) == s.subrange(a, s.len() as int),
    decreases a,
{
    if a == 0 {
        assert(s.subrange(0, s.len() as int) =~= s);
    } else {
        assert forall|k: int| 0 <= k < a - 1 implies s.drop_first()[k] == c by {
            assert(s[k + 1] == c);
        }
        lemma_trim_start_char(s.drop_first(), c, a - 1);
        assert(s.drop_first().subrange(a - 1, s.len() - 1) =~= s.subrange(a, s.len() as int));
    }
}

/// Dropping the trailing `c`s of `t` leaves `t[..b]` when `b` is just past
/// the last position that holds no `c`.
pub proof fn lemma_trim_end_char(t: Seq<char>, c: char, b: int)
    requires
        0 <= b <= t.len(),
        forall|k: int| b <= k < t.len() ==> t[k] == c,
        b == 0 || t[b - 1] != c,
    ensures
        trim_end_char(t, c) == t.subrange(0, b),
    decreases t.len() - b,
{
    if b == t.len() {
        assert(t.subrange(0, b) =~= t);
    } else {
        lemma_trim_end_char(t.drop_last(), c, b);
        assert(t.drop_last().subrange(0, b) =~= t.subrange(0, b));
    }
}

/// The path without slashes at either end, as `str::trim_matches('/')`.
fn strip_path_slashes(path: &str) -> (r: &str)
    ensures
        r@ == strip_slashes(path@),
{
    let n = path.unicode_len();
    let mut a: usize = 0;
    while a < n && path.get_char(a) == '/'
        invariant
            n == path@.len(),
            a <= n,
            forall|k: int| 0 <= k < a ==> path@[k] == '/',
        decreases n - a,
    {
        a = a + 1;
    }
    let mut b: usize = n;
    while b > a && path.get_char(b - 1) == '/'
        invariant
            n == path@.len(),
            a <= b <= n,
            forall|k: int| b <= k < n ==> path@[k] == '/',
        decreases b,
    {
        b = b - 1;
    }
    proof {
        lemma_trim_start_char(path@, '/', a as int);
        let t = path@.subrange(a as int, n as int);
        lemma_trim_end_char(t, '/', b - a);
        assert(t.subrange(0, b - a) =~= path@.subrange(a as int, b as int));
    }
    path.substring_char(a, b)
}

/// The first two segments of a path.
pub fn path_segments(path: &str) -> (r: (&str, Option<&str>))
    ensures
        r.0@ == first_segment(path@),
        opt_str(r.1) == second_segment(path@),
{
    let t = strip_path_slashes(path);
    let n = t.unicode_len();
    let k = find_char(t, 0, '/');
    let first = t.substring_char(0, k);
    assert(t@.take(k as int) =~= t@.subrange(0, k as int));
    if k < n {
        let e = find_char(t, k + 1, '/');
        (first, Some(t.substring_char(k + 1, e)))
    } else {
        (first, None)
    }
}

/// The response to `/`: 200 with no body.
pub fn home() -> (r: Response)
    ensures
        r.view() == bare(HttpCode::Success),
{
    Response {
        code: HttpCode::Success,
        body: None,
        content_type: ContentType::TextPlain,
        gzip_encoding: false,
        encoded_body: None,
    }
}

/// Echoes a path segment back as plain text.
pub fn echo(path_param: Option<&str>) -> (r: Result<Response, RouteError>)
    ensures
        match r {
            Ok(resp) => echo_of(opt_str(path_param)) == Ok::<RouteView, RouteError>(
                RouteView::Respond(resp.view()),
            ),
            Err(e) => echo_of(opt_str(path_param)) == Err::<RouteView, RouteError>(e),
        },
{
    let param = match path_param {
        Some(p) => p,
        None => return Err(RouteError::MissingEchoSegment),
    };
    Ok(
        Response {
            code: HttpCode::Success,
            body: Some(param.to_owned()),
            content_type: ContentType::TextPlain,
            gzip_encoding: false,
            encoded_body: None,
        },
    )
}

/// Answers with the request's `user-agent` header as plain text.
pub fn user_agent(request: &Request) -> (r: Response)
    ensures
        r.view() == user_agent_of(request.headers@),
{
    let body = match request.headers.get("user-agent") {
        Some(v) => Some(v.clone()),
        None => None,
    };
    Response {
        code: HttpCode::Success,
        body,
        content_type: ContentType::TextPlain,
        gzip_encoding: false,
        encoded_body: None,
    }
}

/// Decides a file read: 400 without a storage directory, 404 without a file
/// name, else a read of `<directory>/<name>`.
pub fn handle_file(file_name: Option<&str>, directory: Option<String>) -> (r: Route)
    ensures
        r.view() == read_route_of(opt_str(file_name), opt_chars(directory)),
{
    let directory = match directory {
        Some(d) => d,
        None => return Route::Respond(bare_response(HttpCode::YourFault)),
    };
    let file_name = match file_name {
        Some(n) => n,
        None => return Route::Respond(bare_response(HttpCode::NotFound)),
    };
    let mut path = directory;
    path.append("/");
    path.append(file_name);
    Route::ReadFile(path)
}

/// Decides a file write: 400 without a storage directory, a file name or a
/// request body, else a write of the body to `<directory>/<name>`.
pub fn save_file(directory: Option<String>, file_name: Option<&str>, request: &Request) -> (r: Route)
    ensures
        r.view() == write_route_of(opt_chars(directory), opt_str(file_name), opt_chars(request.body)),
{
    let directory = match directory {
        Some(d) => d,
        None => return Route::Respond(bare_response(HttpCode::YourFault)),
    };
    let file_name = match file_name {
        Some(n) => n,
        None => return Route::Respond(bare_response(HttpCode::YourFault)),
    };
    let body = match &request.body {
        Some(b) => b.clone(),
        None => return Route::Respond(bare_response(HttpCode::YourFault)),
    };
    let mut path = directory;
    path.append("/");
    path.append(file_name);
    Route::WriteFile(path, body)
}

/// A plain-text response with the given code and no body.
pub fn bare_response(code: HttpCode) -> (r: Response)
    ensures
        r.view() == bare(code),
{
    Response {
        code,
        body: None,
        content_type: ContentType::TextPlain,
        gzip_encoding: false,
        encoded_body: None,
    }
}

/// The answer to a file read: 404 when the file does not exist, else 200 with
/// its contents as an octet stream.
pub fn file_read_response(contents: Option<String>) -> (r: Response)
    ensures
        r.view() == read_response_of(opt_chars(contents)),
{
    match contents {
        Some(c) => Response {
            code: HttpCode::Success,
            body: Some(c),
            content_type: ContentType::ApplicationOctetStream,
            gzip_encoding: false,
            encoded_body: None,
        },
        None => bare_response(HttpCode::NotFound),
    }
}

/// The answer to a completed file write: 201 with no body.
pub fn file_saved_response() -> (r: Response)
    ensures
        r.view() == bare(HttpCode::Created),
{
    bare_response(HttpCode::Created)
}

/// Routes a request by the first segment of its path; only the first two
/// segments are read.
pub fn router(request: &Request, directory: Option<String>) -> (r: Result<Route, RouteError>)
    ensures
        match r {
            Ok(route) => route_of(request.view(), opt_chars(directory)) == Ok::<
                RouteView,
                RouteError,
            >(route.view()),
            Err(e) => route_of(request.view(), opt_chars(directory)) == Err::<
                RouteView,
                RouteError,
            >(e),
        },
{
    let (first, second) = path_segments(request.path.as_str());
    if first.is_empty() {
        Ok(Route::Respond(home()))
    } else if str_eq(first, "echo") {
        match echo(second) {
            Ok(resp) => Ok(Route::Respond(resp)),
            Err(e) => Err(e),
        }
    } else if str_eq(first, "user-agent") {
        Ok(Route::Respond(user_agent(request)))
    } else if str_eq(first, "files") {
        match request.method {
            Method::Get => Ok(handle_file(second, directory)),
            Method::Post => Ok(save_file(directory, second, request)),
        }
    } else {
        Ok(Route::Respond(bare_response(HttpCode::NotFound)))
    }
}

} // verus!
