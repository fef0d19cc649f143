use webserver::HttpMethod;
use webserver::Response;
use webserver::RouteTable;
use webserver::StatusCode;
use webserver::format_response;
use webserver::html_response;
use webserver::parse_request;

fn table_with_fallback(fallback: &[u8]) -> RouteTable {
    RouteTable::new(fallback.to_vec())
}

#[test]
fn serves_registered_root_exactly() {
    let mut table = table_with_fallback(b"unknown page");
    table.add_get_endpoint(b"/".to_vec(), b"Hello".to_vec());
    let out = table.dispatch(&b"GET / HTTP/1.1".to_vec());
    assert_eq!(out, b"HTTP/1.1 200 OK\r\nContent-Length: 5\r\n\r\nHello".to_vec());
}

#[test]
fn serves_registered_path_with_its_content() {
    let mut table = table_with_fallback(b"unknown page");
    table.add_get_endpoint(b"/".to_vec(), b"Hello".to_vec());
    table.add_get_endpoint(b"/about".to_vec(), b"About page".to_vec());
    let out = table.dispatch(&b"GET /about HTTP/1.1".to_vec());
    assert_eq!(
        out,
        b"HTTP/1.1 200 OK\r\nContent-Length: 10\r\n\r\nAbout page".to_vec()
    );
}

#[test]
fn unregistered_paths_get_fallback_body() {
    let mut table = table_with_fallback(b"not here");
    table.add_get_endpoint(b"/".to_vec(), b"Hello".to_vec());
    let expected = b"HTTP/1.1 200 OK\r\nContent-Length: 8\r\n\r\nnot here".to_vec();
    for path in [&b"/missing"[..], b"/also/missing", b"/x", b"/missing"] {
        let mut line = b"GET ".to_vec();
        line.extend_from_slice(path);
        line.extend_from_slice(b" HTTP/1.1");
        assert_eq!(table.dispatch(&line), expected);
    }
}

#[test]
fn malformed_lines_degrade_to_defaults() {
    let mut table = table_with_fallback(b"fallback");
    table.add_get_endpoint(b"/".to_vec(), b"root".to_vec());
    let root = b"HTTP/1.1 200 OK\r\nContent-Length: 4\r\n\r\nroot".to_vec();
    // Empty line: method, path and protocol all default, so `/` is served.
    assert_eq!(table.dispatch(&b"".to_vec()), root);
    assert_eq!(table.dispatch(&b"   \r\n".to_vec()), root);
    // Only a method: the path defaults to `/`.
    assert_eq!(table.dispatch(&b"GET".to_vec()), root);
    // Unknown method with a registered path still dispatches.
    assert_eq!(table.dispatch(&b"FETCH / HTTP/1.1".to_vec()), root);
}

#[test]
fn parse_defaults_on_empty_line() {
    let req = parse_request(&b"".to_vec());
    assert_eq!(req.method, HttpMethod::Get);
    assert_eq!(req.path, b"/".to_vec());
    assert_eq!(req.protocol, b"HTTP/1.1".to_vec());
    assert_eq!(req.body, Vec::<u8>::new());
}

#[test]
fn parse_reads_all_three_tokens() {
    let req = parse_request(&b"DELETE /x HTTP/1.0".to_vec());
    assert_eq!(req.method, HttpMethod::Delete);
    assert_eq!(req.path, b"/x".to_vec());
    assert_eq!(req.protocol, b"HTTP/1.0".to_vec());
}

#[test]
fn parse_handles_extra_whitespace() {
    let req = parse_request(&b"  POST   /form   HTTP/1.1  ".to_vec());
    assert_eq!(req.method, HttpMethod::Post);
    assert_eq!(req.path, b"/form".to_vec());
    assert_eq!(req.protocol, b"HTTP/1.1".to_vec());
}

#[test]
fn parse_unknown_method_defaults_to_get() {
    let req = parse_request(&b"FETCH /x HTTP/1.1".to_vec());
    assert_eq!(req.method, HttpMethod::Get);
    let req = parse_request(&b"PUT /y".to_vec());
    assert_eq!(req.method, HttpMethod::Put);
    assert_eq!(req.protocol, b"HTTP/1.1".to_vec());
}

#[test]
fn content_length_counts_bytes_not_chars() {
    // A euro sign is one character but three bytes.
    let euro = vec![0xE2u8, 0x82, 0xAC];
    let mut table = table_with_fallback(b"fallback");
    table.add_get_endpoint(b"/euro".to_vec(), euro.clone());
    let out = table.dispatch(&b"GET /euro HTTP/1.1".to_vec());
    let mut expected = b"HTTP/1.1 200 OK\r\nContent-Length: 3\r\n\r\n".to_vec();
    expected.extend_from_slice(&euro);
    assert_eq!(out, expected);
}

#[test]
fn content_length_round_trips_through_reparse() {
    let body = vec![0xE2u8, 0x82, 0xAC, b'!', 0x00, b'\r', b'\n'];
    let resp = html_response(body.clone());
    let out = format_response(&resp);
    // Re-parse: find the first blank line, read Content-Length back,
    // then take exactly that many bytes.
    let header_end = out
        .windows(4)
        .position(|w| w == b"\r\n\r\n")
        .expect("no blank line");
    let header = &out[..header_end];
    let label = b"Content-Length: ";
    let label_at = header
        .windows(label.len())
        .position(|w| w == label)
        .expect("no Content-Length header");
    let digits = &header[label_at + label.len()..];
    let n: usize = std::str::from_utf8(digits).unwrap().parse().unwrap();
    assert_eq!(n, body.len());
    let reparsed = &out[header_end + 4..header_end + 4 + n];
    assert_eq!(reparsed, &body[..]);
    assert_eq!(out.len(), header_end + 4 + n);
}

#[test]
fn content_length_zero_for_empty_body() {
    let out = format_response(&html_response(Vec::new()));
    assert_eq!(out, b"HTTP/1.1 200 OK\r\nContent-Length: 0\r\n\r\n".to_vec());
}

#[test]
fn content_length_multiple_digits() {
    let body = vec![b'x'; 123];
    let out = format_response(&html_response(body));
    assert!(out.starts_with(b"HTTP/1.1 200 OK\r\nContent-Length: 123\r\n\r\n"));
}

#[test]
fn registered_content_is_frozen_at_registration() {
    let mut backing_file = b"original contents".to_vec();
    let mut table = table_with_fallback(b"fallback");
    table.add_get_endpoint(b"/page".to_vec(), backing_file.clone());
    let first = table.dispatch(&b"GET /page HTTP/1.1".to_vec());
    // The backing data changes after registration...
    backing_file.clear();
    backing_file.extend_from_slice(b"mutated contents");
    // ...but a second request still returns the original, frozen body.
    let second = table.dispatch(&b"GET /page HTTP/1.1".to_vec());
    assert_eq!(first, second);
    assert!(second.ends_with(b"original contents"));
}

#[test]
fn find_endpoint_returns_first_match() {
    let mut table = table_with_fallback(b"fallback");
    table.add_get_endpoint(b"/dup".to_vec(), b"first".to_vec());
    table.add_get_endpoint(b"/dup".to_vec(), b"second".to_vec());
    let found = table.find_endpoint(&b"/dup".to_vec()).expect("registered");
    assert_eq!(found.body, b"first".to_vec());
    assert!(table.find_endpoint(&b"/absent".to_vec()).is_none());
}

#[test]
fn status_lines_and_codes() {
    assert_eq!(StatusCode::Okay.status_line(), b"200 OK".to_vec());
    assert_eq!(StatusCode::BadRequest.status_line(), b"400 Bad Request".to_vec());
    assert_eq!(StatusCode::NotFound.status_line(), b"404 Not Found".to_vec());
    assert_eq!(
        StatusCode::InternalServerError.status_line(),
        b"500 Internal Server Error".to_vec()
    );
    assert_eq!(StatusCode::Okay.code(), 200);
    assert_eq!(StatusCode::BadRequest.code(), 400);
    assert_eq!(StatusCode::NotFound.code(), 404);
    assert_eq!(StatusCode::InternalServerError.code(), 500);
}

#[test]
fn html_response_freezes_contents() {
    let resp = html_response(b"body bytes".to_vec());
    assert_eq!(resp.protocol, b"HTTP/1.1".to_vec());
    assert_eq!(resp.status_code.code(), 200);
    assert_eq!(resp.body, b"body bytes".to_vec());
}

#[test]
fn response_duplicate_copies_every_field() {
    let resp = Response {
        protocol: b"HTTP/1.1".to_vec(),
        status_code: StatusCode::NotFound,
        body: b"gone".to_vec(),
    };
    let copy = resp.duplicate();
    assert_eq!(copy.protocol, resp.protocol);
    assert_eq!(copy.status_code.code(), resp.status_code.code());
    assert_eq!(copy.body, resp.body);
}

#[test]
fn non_get_methods_still_dispatch_on_path() {
    let mut table = table_with_fallback(b"fallback");
    table.add_get_endpoint(b"/submit".to_vec(), b"accepted".to_vec());
    let out = table.dispatch(&b"POST /submit HTTP/1.1".to_vec());
    assert!(out.ends_with(b"accepted"));
}
