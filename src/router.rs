//! Routing of a parsed request to its handler, and the responses the
//! handlers give. File access is left to the caller: a handler that needs a
//! file returns an [`Action`] naming it, and the caller reports the outcome
//! back through [`file_read_response`] or [`file_written_response`].

use vstd::prelude::*;
use vstd::string::StringSliceAdditionalSpecFns;
use crate::bytes::{append_bytes, eq_bytes, is_prefix, occurs_in, starts_with, contains, copy_range};
use crate::gzip::{get_gzip, gzip_of};
use crate::request::{
    header_in, header_value, is_space, lemma_first_line, lemma_three_tokens, lines, parse_request,
    tokens, well_formed,
};
use crate::response::{response_bytes, HTTPRequestBuilder};

verus! {

/// What a request asks for, on byte sequences.
pub enum RouteModel {
    Root,
    Echo(Seq<u8>),
    UserAgent,
    FileGet(Seq<u8>),
    FilePost(Seq<u8>),
    NotFound,
}

/// What a request asks for: the handler chosen by method and path prefix.
pub enum RouteMatch {
    Root,
    Echo(Vec<u8>),
    UserAgent,
    FileGet(Vec<u8>),
    FilePost(Vec<u8>),
    NotFound,
}

impl View for RouteMatch {
    type V = RouteModel;

    open spec fn view(&self) -> RouteModel {
        match self {
            RouteMatch::Root => RouteModel::Root,
            RouteMatch::Echo(w) => RouteModel::Echo(w@),
            RouteMatch::UserAgent => RouteModel::UserAgent,
            RouteMatch::FileGet(n) => RouteModel::FileGet(n@),
            RouteMatch::FilePost(n) => RouteModel::FilePost(n@),
            RouteMatch::NotFound => RouteModel::NotFound,
        }
    }
}

/// The end of the path segment that starts at `i`: the next `/`, or the end.
pub open spec fn segment_end(p: Seq<u8>, i: int) -> int
    decreases p.len() - i,
{
    if i < 0 || i >= p.len() || p[i] == 47 {
        i
    } else {
        segment_end(p, i + 1)
    }
}

/// The path segment that starts at `i`.
pub open spec fn segment(p: Seq<u8>, i: int) -> Seq<u8> {
    p.subrange(i, segment_end(p, i))
}

/// The route of a request with this method and path, by the first rule that
/// matches: `GET /`, `GET /echo/<word>`, `GET /user-agent`,
/// `GET /files/<name>`, `POST /files/<name>`; anything else is not found.
pub open spec fn route_of(method: Seq<u8>, path: Seq<u8>) -> RouteModel {
    if method == "GET".spec_bytes() {
        if path == "/".spec_bytes() {
            RouteModel::Root
        } else if is_prefix("/echo/".spec_bytes(), path) {
            RouteModel::Echo(segment(path, "/echo/".spec_bytes().len() as int))
        } else if is_prefix("/user-agent".spec_bytes(), path) {
            RouteModel::UserAgent
        } else if is_prefix("/files/".spec_bytes(), path) {
            RouteModel::FileGet(segment(path, "/files/".spec_bytes().len() as int))
        } else {
            RouteModel::NotFound
        }
    } else if method == "POST".spec_bytes() && is_prefix("/files/".spec_bytes(), path) {
        RouteModel::FilePost(segment(path, "/files/".spec_bytes().len() as int))
    } else {
        RouteModel::NotFound
    }
}

/// The path segment of `p` that starts at `i`.
fn path_segment(p: &[u8], i: usize) -> (r: Vec<u8>)
    requires
        i <= p@.len(),
    ensures
        r@ == segment(p@, i as int),
{
    let mut j: usize = i;
    while j < p.len() && p[j] != 47
        invariant
            i <= j <= p@.len(),
            segment_end(p@, i as int) == segment_end(p@, j as int),
        decreases p@.len() - j,
    {
        j = j + 1;
    }
    copy_range(p, i, j)
}

/// Chooses the handler for a request with this method and path.
pub fn route(method: &[u8], path: &[u8]) -> (r: RouteMatch)
    ensures
        r@ == route_of(method@, path@),
{
    if eq_bytes(method, "GET".as_bytes()) {
        if eq_bytes(path, "/".as_bytes()) {
            RouteMatch::Root
        } else if starts_with(path, "/echo/".as_bytes()) {
            RouteMatch::Echo(path_segment(path, "/echo/".as_bytes().len()))
        } else if starts_with(path, "/user-agent".as_bytes()) {
            RouteMatch::UserAgent
        } else if starts_with(path, "/files/".as_bytes()) {
            RouteMatch::FileGet(path_segment(path, "/files/".as_bytes().len()))
        } else {
            RouteMatch::NotFound
        }
    } else if eq_bytes(method, "POST".as_bytes()) && starts_with(path, "/files/".as_bytes()) {
        RouteMatch::FilePost(path_segment(path, "/files/".as_bytes().len()))
    } else {
        RouteMatch::NotFound
    }
}

/// `404 Not Found` with no headers and no body.
pub open spec fn not_found() -> Seq<u8> {
    response_bytes("404 Not Found".spec_bytes(), None, None, None, Seq::empty())
}

/// `200 OK` with no headers and no body.
pub open spec fn empty_ok() -> Seq<u8> {
    response_bytes("200 OK".spec_bytes(), None, None, None, Seq::empty())
}

/// `201 Created` with no headers and no body.
pub open spec fn created() -> Seq<u8> {
    response_bytes("201 Created".spec_bytes(), None, None, None, Seq::empty())
}

/// `200 OK` carrying `body` as plain text.
pub open spec fn text_ok(body: Seq<u8>) -> Seq<u8> {
    response_bytes(
        "200 OK".spec_bytes(),
        None,
        Some("text/plain".spec_bytes()),
        Some(body.len()),
        body,
    )
}

/// `200 OK` carrying the gzip stream `z`.
pub open spec fn gzip_ok(z: Seq<u8>) -> Seq<u8> {
    response_bytes("200 OK".spec_bytes(), Some("gzip".spec_bytes()), None, Some(z.len()), z)
}

/// `200 OK` carrying the contents of a file.
pub open spec fn file_ok(content: Seq<u8>) -> Seq<u8> {
    response_bytes(
        "200 OK".spec_bytes(),
        None,
        Some("application/octet-stream".spec_bytes()),
        Some(content.len()),
        content,
    )
}

/// The response to a file read: its contents, or not found where it failed.
pub open spec fn file_read_model(content: Option<Seq<u8>>) -> Seq<u8> {
    match content {
        Some(c) => file_ok(c),
        None => not_found(),
    }
}

/// The response to `GET /echo/<word>`, given what the compressor returned
/// where the client accepts gzip (`None` where it does not).
pub open spec fn echo_model(word: Seq<u8>, compressed: Option<Seq<u8>>) -> Seq<u8> {
    match compressed {
        Some(z) => gzip_ok(z),
        None => text_ok(word),
    }
}

/// Whether the first `Accept-Encoding` header of `ls` mentions gzip.
pub open spec fn accepts_gzip(ls: Seq<Seq<u8>>) -> bool {
    match header_in(ls, "Accept-Encoding:".spec_bytes()) {
        Some(v) => occurs_in("gzip".spec_bytes(), v),
        None => false,
    }
}

/// The value of the first `User-Agent` header of `ls`, or `Unknown`.
pub open spec fn user_agent(ls: Seq<Seq<u8>>) -> Seq<u8> {
    match header_in(ls, "User-Agent:".spec_bytes()) {
        Some(v) => v,
        None => "Unknown".spec_bytes(),
    }
}

/// What serving a request takes, on byte sequences.
pub enum ActionModel {
    Respond(Seq<u8>),
    ReadFile(Seq<u8>),
    WriteFile(Seq<u8>, Seq<u8>),
}

/// What serving a request takes: response bytes to send, or a file to read
/// or write first, named by its path.
pub enum Action {
    Respond(Vec<u8>),
    ReadFile(Vec<u8>),
    /// The path, then the bytes to store there.
    WriteFile(Vec<u8>, Vec<u8>),
}

impl View for Action {
    type V = ActionModel;

    open spec fn view(&self) -> ActionModel {
        match self {
            Action::Respond(b) => ActionModel::Respond(b@),
            Action::ReadFile(p) => ActionModel::ReadFile(p@),
            Action::WriteFile(p, b) => ActionModel::WriteFile(p@, b@),
        }
    }
}

/// What serving the received bytes `s` takes, with files resolved under
/// `root` by concatenation. A file name is used as it stands: nothing stops a
/// name from leading out of `root`. The bytes stored by a `POST` are the last
/// line of the request, so a body that holds a CRLF keeps only what follows
/// its last one.
pub open spec fn action_of(s: Seq<u8>, root: Seq<u8>) -> ActionModel {
    if !well_formed(s) {
        ActionModel::Respond(not_found())
    } else {
        let ls = lines(s);
        let ts = tokens(ls[0]);
        match route_of(ts[0], ts[1]) {
            RouteModel::Root => ActionModel::Respond(empty_ok()),
            RouteModel::Echo(w) => ActionModel::Respond(
                echo_model(w, if accepts_gzip(ls) { Some(gzip_of(w)) } else { None }),
            ),
            RouteModel::UserAgent => ActionModel::Respond(text_ok(user_agent(ls))),
            RouteModel::FileGet(n) => ActionModel::ReadFile(root + n),
            RouteModel::FilePost(n) => ActionModel::WriteFile(root + n, ls.last()),
            RouteModel::NotFound => ActionModel::Respond(not_found()),
        }
    }
}

/// The `404 Not Found` response.
pub fn not_found_response() -> (r: Vec<u8>)
    ensures
        r@ == not_found(),
{
    HTTPRequestBuilder::default().add_status("404 Not Found".as_bytes()).build()
}

/// The response to a file read, given its contents, or `None` where the
/// read failed.
pub fn file_read_response(content: Option<Vec<u8>>) -> (r: Vec<u8>)
    ensures
        r@ == file_read_model(crate::bytes::opt_view(content)),
{
    match content {
        Some(c) => HTTPRequestBuilder::default()
            .add_content_type("application/octet-stream".as_bytes())
            .add_content_length(c.len())
            .add_content(c.as_slice())
            .build(),
        None => not_found_response(),
    }
}

/// The response once a file has been written.
pub fn file_written_response() -> (r: Vec<u8>)
    ensures
        r@ == created(),
{
    HTTPRequestBuilder::default().add_status("201 Created".as_bytes()).build()
}

/// The response to `GET /echo/<word>`, given the compressed word where the
/// client accepts gzip.
pub fn echo_response(word: &[u8], compressed: Option<Vec<u8>>) -> (r: Vec<u8>)
    ensures
        r@ == echo_model(word@, crate::bytes::opt_view(compressed)),
{
    match compressed {
        Some(z) => HTTPRequestBuilder::default()
            .add_encoding("gzip".as_bytes())
            .add_content_length(z.len())
            .add_content(z.as_slice())
            .build(),
        None => text_response(word),
    }
}

/// `200 OK` with `body` as plain text.
fn text_response(body: &[u8]) -> (r: Vec<u8>)
    ensures
        r@ == text_ok(body@),
{
    HTTPRequestBuilder::default()
        .add_content_type("text/plain".as_bytes())
        .add_content_length(body.len())
        .add_content(body)
        .build()
}

/// Decides what serving the received bytes `s` takes, with files resolved
/// under `root`.
pub fn handle_request(s: &[u8], root: &[u8]) -> (r: Action)
    ensures
        r@ == action_of(s@, root@),
        !well_formed(s@) ==> r@ == ActionModel::Respond(not_found()),
{
    let req = match parse_request(s) {
        Some(req) => req,
        None => return Action::Respond(not_found_response()),
    };
    let ghost ls = lines(s@);
    let ghost ts = tokens(ls[0]);
    match route(req.method.as_slice(), req.path.as_slice()) {
        RouteMatch::Root => Action::Respond(HTTPRequestBuilder::default().build()),
        RouteMatch::Echo(w) => {
            let gzip = match header_value(&req.lines, "Accept-Encoding:".as_bytes()) {
                Some(v) => contains(v.as_slice(), "gzip".as_bytes()),
                None => false,
            };
            if gzip {
                let (z, _) = get_gzip(w.as_slice());
                Action::Respond(echo_response(w.as_slice(), Some(z)))
            } else {
                Action::Respond(echo_response(w.as_slice(), None))
            }
        },
        RouteMatch::UserAgent => {
            let ua = match header_value(&req.lines, "User-Agent:".as_bytes()) {
                Some(v) => v,
                None => {
                    let mut d: Vec<u8> = Vec::new();
                    append_bytes(&mut d, "Unknown".as_bytes());
                    d
                },
            };
            Action::Respond(text_response(ua.as_slice()))
        },
        RouteMatch::FileGet(n) => {
            let mut p: Vec<u8> = Vec::new();
            append_bytes(&mut p, root);
            append_bytes(&mut p, n.as_slice());
            Action::ReadFile(p)
        },
        RouteMatch::FilePost(n) => {
            let mut p: Vec<u8> = Vec::new();
            append_bytes(&mut p, root);
            append_bytes(&mut p, n.as_slice());
            Action::WriteFile(p, req.body)
        },
        RouteMatch::NotFound => Action::Respond(not_found_response()),
    }
}

/// A request whose method and path match no rule is answered `404 Not Found`,
/// as is one whose request line lacks a method or a path.
pub proof fn lemma_unmatched_not_found(s: Seq<u8>, root: Seq<u8>)
    requires
        !well_formed(s) || route_of(tokens(lines(s)[0])[0], tokens(lines(s)[0])[1])
            == RouteModel::NotFound,
    ensures
        action_of(s, root) == ActionModel::Respond(not_found()),
{
}

/// Writing then reading one file name: a `POST /files/<name>` stores the
/// request's body at the path that a `GET /files/<name>` reads, and the
/// response to that read, once it has those bytes back, ends with exactly
/// them.
pub proof fn lemma_file_round_trip(
    post: Seq<u8>,
    get: Seq<u8>,
    root: Seq<u8>,
    name: Seq<u8>,
)
    requires
        well_formed(post),
        well_formed(get),
        route_of(tokens(lines(post)[0])[0], tokens(lines(post)[0])[1])
            == RouteModel::FilePost(name),
        route_of(tokens(lines(get)[0])[0], tokens(lines(get)[0])[1])
            == RouteModel::FileGet(name),
    ensures
        action_of(post, root) == ActionModel::WriteFile(root + name, lines(post).last()),
        action_of(get, root) == ActionModel::ReadFile(root + name),
        ({
            let body = lines(post).last();
            let r = file_read_model(Some(body));
            body.len() <= r.len() && r.subrange(r.len() - body.len(), r.len() as int) == body
        }),
{
    let body = lines(post).last();
    let r = file_read_model(Some(body));
    let head = "HTTP/1.1 ".spec_bytes() + "200 OK".spec_bytes() + "\r\n".spec_bytes()
        + crate::response::optional_header("Content-Encoding".spec_bytes(), None)
        + crate::response::optional_header(
            "Content-Type".spec_bytes(),
            Some("application/octet-stream".spec_bytes()),
        )
        + crate::response::optional_header(
            "Content-Length".spec_bytes(),
            Some(crate::response::decimal(body.len())),
        )
        + "\r\n".spec_bytes();
    assert(r == head + body);
    assert(r.subrange(r.len() - body.len(), r.len() as int) =~= body);
}

/// The bytes of `GET <path> HTTP/1.1`, CRLF, then `rest`: any headers, the
/// blank line and a body.
pub open spec fn get_request(path: Seq<u8>, rest: Seq<u8>) -> Seq<u8> {
    "GET ".spec_bytes() + path + " HTTP/1.1\r\n".spec_bytes() + rest
}

/// Each of the paths `/`, `/echo/x`, `/user-agent` and `/files/y`, whatever
/// headers follow, reaches its own handler: the empty `200 OK`, the echo of
/// `x` (compressed where the client accepts gzip), the `User-Agent` value (or
/// its fallback), and a read of `y` under the root.
pub proof fn lemma_route_table(path: Seq<u8>, rest: Seq<u8>, root: Seq<u8>)
    requires
        path == "/".spec_bytes() || path == "/echo/x".spec_bytes()
            || path == "/user-agent".spec_bytes() || path == "/files/y".spec_bytes(),
    ensures
        path == "/".spec_bytes() ==> action_of(get_request(path, rest), root)
            == ActionModel::Respond(empty_ok()),
        path == "/echo/x".spec_bytes() ==> action_of(get_request(path, rest), root)
            == ActionModel::Respond(echo_model(
                "x".spec_bytes(),
                if accepts_gzip(lines(get_request(path, rest))) {
                    Some(gzip_of("x".spec_bytes()))
                } else {
                    None
                },
            )),
        path == "/user-agent".spec_bytes() ==> action_of(get_request(path, rest), root)
            == ActionModel::Respond(text_ok(user_agent(lines(get_request(path, rest))))),
        path == "/files/y".spec_bytes() ==> action_of(get_request(path, rest), root)
            == ActionModel::ReadFile(root + "y".spec_bytes()),
{
    broadcast use vstd::string::is_ascii_spec_bytes;

    reveal_strlit("GET ");
    reveal_strlit(" HTTP/1.1\r\n");
    reveal_strlit("GET");
    reveal_strlit("POST");
    reveal_strlit("HTTP/1.1");
    reveal_strlit("/");
    reveal_strlit("/echo/x");
    reveal_strlit("/user-agent");
    reveal_strlit("/files/y");
    reveal_strlit("/echo/");
    reveal_strlit("/files/");
    reveal_strlit("x");
    reveal_strlit("y");
    assert(vstd::string::is_ascii("GET "));
    assert(vstd::string::is_ascii(" HTTP/1.1\r\n"));
    assert(vstd::string::is_ascii("GET"));
    assert(vstd::string::is_ascii("POST"));
    assert(vstd::string::is_ascii("HTTP/1.1"));
    assert(vstd::string::is_ascii("/"));
    assert(vstd::string::is_ascii("/echo/x"));
    assert(vstd::string::is_ascii("/user-agent"));
    assert(vstd::string::is_ascii("/files/y"));
    assert(vstd::string::is_ascii("/echo/"));
    assert(vstd::string::is_ascii("/files/"));
    assert(vstd::string::is_ascii("x"));
    assert(vstd::string::is_ascii("y"));
    let m = "GET".spec_bytes();
    let v = "HTTP/1.1".spec_bytes();
    let line = m + seq![32u8] + path + seq![32u8] + v;
    let s = get_request(path, rest);
    assert(m =~= seq![71u8, 69, 84]);
    assert(v =~= seq![72u8, 84, 84, 80, 47, 49, 46, 49]);
    assert(s =~= line + seq![13u8, 10u8] + rest);
    assert forall|k: int| 0 <= k < path.len() implies !is_space(#[trigger] path[k]) by {
        if path == "/echo/x".spec_bytes() {
            assert(path =~= seq![47u8, 101, 99, 104, 111, 47, 120]);
        } else if path == "/user-agent".spec_bytes() {
            assert(path =~= seq![47u8, 117, 115, 101, 114, 45, 97, 103, 101, 110, 116]);
        } else if path == "/files/y".spec_bytes() {
            assert(path =~= seq![47u8, 102, 105, 108, 101, 115, 47, 121]);
        } else {
            assert(path =~= seq![47u8]);
        }
    }
    lemma_three_tokens(m, path, v);
    assert forall|k: int| 0 <= k < line.len() implies line[k] != 13 by {
        if k < 3 {
        } else if k == 3 {
        } else if k < 4 + path.len() {
            assert(line[k] == path[k - 4]);
        } else {
        }
    }
    lemma_first_line(line, rest);
    assert(well_formed(s));
    assert(tokens(lines(s)[0]) == seq![m, path, v]);
    if path == "/".spec_bytes() {
    } else if path == "/echo/x".spec_bytes() {
        assert(path =~= seq![47u8, 101, 99, 104, 111, 47, 120]);
        assert("/echo/".spec_bytes() =~= path.subrange(0, 6));
        assert(segment_end(path, 6) == 7) by {
            reveal_with_fuel(segment_end, 3);
        }
        assert(segment(path, 6) =~= "x".spec_bytes());
    } else if path == "/user-agent".spec_bytes() {
        assert(path =~= seq![47u8, 117, 115, 101, 114, 45, 97, 103, 101, 110, 116]);
        assert(path.subrange(0, 6)[1] != "/echo/".spec_bytes()[1]);
        assert(path.subrange(0, 11) =~= "/user-agent".spec_bytes());
    } else {
        assert(path =~= seq![47u8, 102, 105, 108, 101, 115, 47, 121]);
        assert(path.subrange(0, 6)[1] != "/echo/".spec_bytes()[1]);
        assert(path.subrange(0, 7) =~= "/files/".spec_bytes());
        assert(segment_end(path, 7) == 8) by {
            reveal_with_fuel(segment_end, 3);
        }
        assert(segment(path, 7) =~= "y".spec_bytes());
    }
}

} // verus!
