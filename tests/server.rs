use std::collections::HashMap;
use std::io::Read;

use flate2::read::GzDecoder;
use http_server::bytes::{contains, eq_bytes, starts_with};
use http_server::gzip::get_gzip;
use http_server::pool::{Step, TaskQueue};
use http_server::request::{find_prefixed, header_value, parse_request, split_lines, split_whitespace};
use http_server::response::{append_decimal, HTTPRequestBuilder};
use http_server::router::{
    echo_response, file_read_response, file_written_response, handle_request, route, Action,
    RouteMatch,
};

const ROOT: &[u8] = b"/srv/files/";

fn respond(req: &[u8]) -> Vec<u8> {
    match handle_request(req, ROOT) {
        Action::Respond(b) => b,
        _ => panic!("expected a response"),
    }
}

fn gunzip(z: &[u8]) -> Vec<u8> {
    let mut out = Vec::new();
    GzDecoder::new(z).read_to_end(&mut out).unwrap();
    out
}

fn split_head(r: &[u8]) -> (String, Vec<u8>) {
    let pos = r.windows(4).position(|w| w == b"\r\n\r\n").unwrap();
    (String::from_utf8(r[..pos + 4].to_vec()).unwrap(), r[pos + 4..].to_vec())
}

#[test]
fn router_selects_each_handler() {
    assert!(matches!(route(b"GET", b"/"), RouteMatch::Root));
    match route(b"GET", b"/echo/x") {
        RouteMatch::Echo(w) => assert_eq!(w, b"x".to_vec()),
        _ => panic!("expected echo"),
    }
    assert!(matches!(route(b"GET", b"/user-agent"), RouteMatch::UserAgent));
    match route(b"GET", b"/files/y") {
        RouteMatch::FileGet(n) => assert_eq!(n, b"y".to_vec()),
        _ => panic!("expected file read"),
    }
    match route(b"POST", b"/files/y") {
        RouteMatch::FilePost(n) => assert_eq!(n, b"y".to_vec()),
        _ => panic!("expected file write"),
    }
    assert!(matches!(route(b"GET", b"/nope"), RouteMatch::NotFound));
    assert!(matches!(route(b"POST", b"/"), RouteMatch::NotFound));
    assert!(matches!(route(b"DELETE", b"/files/y"), RouteMatch::NotFound));
}

#[test]
fn echo_word_stops_at_next_slash() {
    match route(b"GET", b"/echo/a/b") {
        RouteMatch::Echo(w) => assert_eq!(w, b"a".to_vec()),
        _ => panic!("expected echo"),
    }
    match route(b"GET", b"/echo/") {
        RouteMatch::Echo(w) => assert_eq!(w, Vec::<u8>::new()),
        _ => panic!("expected echo"),
    }
}

#[test]
fn root_gives_empty_ok() {
    assert_eq!(respond(b"GET / HTTP/1.1\r\nHost: h\r\n\r\n"), b"HTTP/1.1 200 OK\r\n\r\n".to_vec());
}

#[test]
fn echo_plain_text() {
    assert_eq!(
        respond(b"GET /echo/abc HTTP/1.1\r\nHost: h\r\n\r\n"),
        b"HTTP/1.1 200 OK\r\nContent-Type: text/plain\r\nContent-Length: 3\r\n\r\nabc".to_vec()
    );
}

#[test]
fn echo_gzip_when_accepted() {
    let r = respond(b"GET /echo/abc HTTP/1.1\r\nHost: h\r\nAccept-Encoding: gzip\r\n\r\n");
    let (head, body) = split_head(&r);
    assert!(head.starts_with("HTTP/1.1 200 OK\r\n"));
    assert!(head.contains("Content-Encoding: gzip\r\n"));
    assert!(!head.contains("Content-Type"));
    assert!(head.contains(&format!("Content-Length: {}\r\n", body.len())));
    assert_ne!(body, b"abc".to_vec());
    assert_eq!(gunzip(&body), b"abc".to_vec());
}

#[test]
fn echo_gzip_among_other_encodings() {
    let r = respond(b"GET /echo/hi HTTP/1.1\r\nAccept-Encoding: deflate, gzip\r\n\r\n");
    let (head, body) = split_head(&r);
    assert!(head.contains("Content-Encoding: gzip\r\n"));
    assert_eq!(gunzip(&body), b"hi".to_vec());
}

#[test]
fn echo_without_gzip_support() {
    assert_eq!(
        respond(b"GET /echo/hi HTTP/1.1\r\nAccept-Encoding: deflate\r\n\r\n"),
        b"HTTP/1.1 200 OK\r\nContent-Type: text/plain\r\nContent-Length: 2\r\n\r\nhi".to_vec()
    );
}

#[test]
fn user_agent_is_echoed() {
    let r = respond(b"GET /user-agent HTTP/1.1\r\nUser-Agent: test-client/1.0\r\n\r\n");
    assert_eq!(
        r,
        b"HTTP/1.1 200 OK\r\nContent-Type: text/plain\r\nContent-Length: 15\r\n\r\ntest-client/1.0"
            .to_vec()
    );
    let (_, body) = split_head(&r);
    assert_eq!(body, b"test-client/1.0".to_vec());
}

#[test]
fn user_agent_fallback() {
    assert_eq!(
        respond(b"GET /user-agent HTTP/1.1\r\nHost: h\r\n\r\n"),
        b"HTTP/1.1 200 OK\r\nContent-Type: text/plain\r\nContent-Length: 7\r\n\r\nUnknown".to_vec()
    );
}

#[test]
fn file_write_then_read() {
    let mut store: HashMap<Vec<u8>, Vec<u8>> = HashMap::new();
    match handle_request(b"POST /files/a.txt HTTP/1.1\r\nContent-Length: 5\r\n\r\nhello", ROOT) {
        Action::WriteFile(p, b) => {
            assert_eq!(p, b"/srv/files/a.txt".to_vec());
            assert_eq!(b, b"hello".to_vec());
            store.insert(p, b);
        }
        _ => panic!("expected a write"),
    }
    assert_eq!(file_written_response(), b"HTTP/1.1 201 Created\r\n\r\n".to_vec());
    match handle_request(b"GET /files/a.txt HTTP/1.1\r\nHost: h\r\n\r\n", ROOT) {
        Action::ReadFile(p) => {
            let content = store.get(&p).cloned();
            let r = file_read_response(content);
            assert_eq!(
                r,
                b"HTTP/1.1 200 OK\r\nContent-Type: application/octet-stream\r\nContent-Length: 5\r\n\r\nhello"
                    .to_vec()
            );
        }
        _ => panic!("expected a read"),
    }
}

#[test]
fn missing_file_is_not_found() {
    match handle_request(b"GET /files/missing.txt HTTP/1.1\r\nHost: h\r\n\r\n", ROOT) {
        Action::ReadFile(p) => {
            assert_eq!(p, b"/srv/files/missing.txt".to_vec());
            assert_eq!(file_read_response(None), b"HTTP/1.1 404 Not Found\r\n\r\n".to_vec());
        }
        _ => panic!("expected a read"),
    }
}

#[test]
fn unknown_path_is_not_found() {
    assert_eq!(respond(b"GET /nope HTTP/1.1\r\nHost: h\r\n\r\n"), b"HTTP/1.1 404 Not Found\r\n\r\n".to_vec());
}

#[test]
fn malformed_request_is_not_found() {
    assert_eq!(respond(b""), b"HTTP/1.1 404 Not Found\r\n\r\n".to_vec());
    assert_eq!(respond(b"GET\r\n\r\n"), b"HTTP/1.1 404 Not Found\r\n\r\n".to_vec());
}

#[test]
fn parse_request_fields() {
    let req = parse_request(b"POST /files/x HTTP/1.1\r\nHost: h\r\n\r\nbody").unwrap();
    assert_eq!(req.method, b"POST".to_vec());
    assert_eq!(req.path, b"/files/x".to_vec());
    assert_eq!(req.version, b"HTTP/1.1".to_vec());
    assert_eq!(req.lines.len(), 4);
    assert_eq!(req.body, b"body".to_vec());
    let short = parse_request(b"GET /").unwrap();
    assert_eq!(short.version, Vec::<u8>::new());
    assert!(parse_request(b"GET").is_none());
}

#[test]
fn lines_split_on_crlf() {
    assert_eq!(split_lines(b""), vec![Vec::<u8>::new()]);
    assert_eq!(split_lines(b"a\r\nb\nc\r\n"), vec![b"a".to_vec(), b"b\nc".to_vec(), Vec::new()]);
    assert_eq!(split_lines(b"\r\n\r\n"), vec![Vec::<u8>::new(), Vec::new(), Vec::new()]);
}

#[test]
fn tokens_skip_runs_of_whitespace() {
    assert_eq!(split_whitespace(b"  GET \t/x  HTTP/1.1 "), vec![b"GET".to_vec(), b"/x".to_vec(), b"HTTP/1.1".to_vec()]);
    assert_eq!(split_whitespace(b"   "), Vec::<Vec<u8>>::new());
}

#[test]
fn header_lookup_first_match() {
    let ls = split_lines(b"GET / HTTP/1.1\r\nX-A:  one\r\nX-A: two\r\nY: z");
    assert_eq!(find_prefixed(&ls, b"X-A:"), Some(1));
    assert_eq!(header_value(&ls, b"X-A:"), Some(b"one".to_vec()));
    assert_eq!(header_value(&ls, b"x-a:"), None);
    assert_eq!(header_value(&ls, b"Y:"), Some(b"z".to_vec()));
}

#[test]
fn builder_orders_headers() {
    let r = HTTPRequestBuilder::default()
        .add_content(b"xy")
        .add_content_length(2)
        .add_content_type(b"text/plain")
        .add_encoding(b"gzip")
        .add_status(b"201 Created")
        .build();
    assert_eq!(
        r,
        b"HTTP/1.1 201 Created\r\nContent-Encoding: gzip\r\nContent-Type: text/plain\r\nContent-Length: 2\r\n\r\nxy"
            .to_vec()
    );
    assert_eq!(HTTPRequestBuilder::default().build(), b"HTTP/1.1 200 OK\r\n\r\n".to_vec());
}

#[test]
fn decimal_digits() {
    for (n, s) in [(0usize, "0"), (7, "7"), (10, "10"), (1024, "1024"), (usize::MAX, "18446744073709551615")] {
        let mut out = b"x".to_vec();
        append_decimal(&mut out, n);
        assert_eq!(out, format!("x{}", s).into_bytes());
    }
}

#[test]
fn gzip_round_trips() {
    let (z, len) = get_gzip(b"hello hello hello");
    assert_eq!(len, z.len());
    assert_eq!(&z[..2], &[0x1f, 0x8b]);
    assert_eq!(gunzip(&z), b"hello hello hello".to_vec());
    assert_eq!(get_gzip(b"hello hello hello"), (z.clone(), len));
    let (e, _) = get_gzip(b"");
    assert_eq!(gunzip(&e), Vec::<u8>::new());
}

#[test]
fn echo_response_given_compressed_bytes() {
    assert_eq!(
        echo_response(b"abc", Some(vec![1, 2])),
        b"HTTP/1.1 200 OK\r\nContent-Encoding: gzip\r\nContent-Length: 2\r\n\r\n\x01\x02".to_vec()
    );
    assert_eq!(
        echo_response(b"abc", None),
        b"HTTP/1.1 200 OK\r\nContent-Type: text/plain\r\nContent-Length: 3\r\n\r\nabc".to_vec()
    );
}

#[test]
fn byte_helpers() {
    assert!(starts_with(b"abc", b"ab"));
    assert!(!starts_with(b"a", b"ab"));
    assert!(contains(b"x-gzip-y", b"gzip"));
    assert!(!contains(b"gzi", b"gzip"));
    assert!(contains(b"", b""));
    assert!(eq_bytes(b"GET", b"GET"));
    assert!(!eq_bytes(b"GET", b"GETS"));
}

#[test]
fn queue_is_first_in_first_out() {
    let mut q: TaskQueue<u32> = TaskQueue::new();
    assert!(matches!(q.next_step(), Step::Wait));
    q.submit(1);
    q.submit(2);
    assert_eq!(q.len(), 2);
    assert!(matches!(q.next_step(), Step::Run(1)));
    q.close();
    q.submit(3);
    assert!(matches!(q.next_step(), Step::Run(2)));
    assert!(matches!(q.next_step(), Step::Run(3)));
    assert!(matches!(q.next_step(), Step::Exit));
    assert_eq!(q.len(), 0);
}

#[test]
fn routes_hold_with_extra_headers() {
    let extra = b"Host: h\r\nX-Other: 1\r\nAccept: */*\r\n\r\n";
    let mut req = b"GET / HTTP/1.1\r\n".to_vec();
    req.extend_from_slice(extra);
    assert_eq!(respond(&req), b"HTTP/1.1 200 OK\r\n\r\n".to_vec());
    let mut req = b"GET /echo/x HTTP/1.1\r\n".to_vec();
    req.extend_from_slice(extra);
    assert_eq!(
        respond(&req),
        b"HTTP/1.1 200 OK\r\nContent-Type: text/plain\r\nContent-Length: 1\r\n\r\nx".to_vec()
    );
    let mut req = b"GET /files/y HTTP/1.1\r\n".to_vec();
    req.extend_from_slice(extra);
    match handle_request(&req, ROOT) {
        Action::ReadFile(p) => assert_eq!(p, b"/srv/files/y".to_vec()),
        _ => panic!("expected a read"),
    }
}
