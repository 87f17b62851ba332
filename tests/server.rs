use http_rust::{
    decode_request_line, parse_method, parse_version,
    get_folder_body, handle_path, handle_request, is_within_root, parse_path, prepare_response_body,
    serve_directory, serve_file_head, DirEntry, Dispatch, HttpHandler, HttpVersion,
    Method, ReadStep, RequestError, RequestLine, ResponseOptions, ShutdownCoordinator, Status,
    Target,
};

const NOW: u64 = 784111777;

fn feed_all(chunks: &[&[u8]]) -> Vec<ReadStep> {
    let mut h = HttpHandler::new();
    let mut steps = Vec::new();
    for c in chunks {
        steps.push(h.read_request_line(c));
    }
    steps
}

fn ready_line(step: ReadStep) -> RequestLine {
    match step {
        ReadStep::Ready(Ok(l)) => l,
        other => panic!("no request line: {:?}", other),
    }
}

fn line(method: Method, uri: &str, version: HttpVersion) -> Result<RequestLine, RequestError> {
    Ok(RequestLine { method, uri: uri.to_string(), version })
}

fn text(b: &[u8]) -> String {
    String::from_utf8(b.to_vec()).unwrap()
}

#[test]
fn request_line_in_one_read() {
    let mut steps = feed_all(&[b"GET / HTTP/1.1\r\n"]);
    let l = ready_line(steps.pop().unwrap());
    assert_eq!(l.method, Method::Get);
    assert_eq!(l.uri, "/");
    assert_eq!(l.version, HttpVersion::Http1_1);
}

#[test]
fn request_line_split_in_two_reads() {
    let mut steps = feed_all(&[b"GET / HT", b"TP/1.1\r\n"]);
    assert!(matches!(steps[0], ReadStep::Pending));
    let l = ready_line(steps.pop().unwrap());
    assert_eq!(l.method, Method::Get);
    assert_eq!(l.uri, "/");
    assert_eq!(l.version, HttpVersion::Http1_1);
}

#[test]
fn request_line_split_between_cr_and_lf() {
    let mut steps = feed_all(&[b"GET / HTTP/1.1\r", b"\n"]);
    assert!(matches!(steps[0], ReadStep::Pending));
    let l = ready_line(steps.pop().unwrap());
    assert_eq!(l.uri, "/");
    assert_eq!(l.version, HttpVersion::Http1_1);
}

#[test]
fn request_line_one_byte_per_read() {
    let bytes: &[u8] = b"GET / HTTP/1.1\r\n";
    let chunks: Vec<&[u8]> = bytes.chunks(1).collect();
    let mut steps = feed_all(&chunks);
    let last = steps.pop().unwrap();
    assert!(steps.iter().all(|s| matches!(s, ReadStep::Pending)));
    let l = ready_line(last);
    assert_eq!(l.method, Method::Get);
    assert_eq!(l.uri, "/");
    assert_eq!(l.version, HttpVersion::Http1_1);
}

#[test]
fn empty_read_means_closed() {
    let mut steps = feed_all(&[b"GET /", b""]);
    assert!(matches!(steps.pop().unwrap(), ReadStep::Ready(Err(RequestError::ConnectionClosed))));
}

#[test]
fn unknown_method_token_is_invalid() {
    let mut steps = feed_all(&[b"FOO / HTTP/1.1\r\n"]);
    assert!(matches!(
        steps.pop().unwrap(),
        ReadStep::Ready(Err(RequestError::InvalidRequestLine))
    ));
    let mut steps = feed_all(&[b"get / HTTP/1.1\r\n"]);
    assert!(matches!(
        steps.pop().unwrap(),
        ReadStep::Ready(Err(RequestError::InvalidRequestLine))
    ));
}

#[test]
fn missing_fields_are_invalid() {
    let mut steps = feed_all(&[b"GET /\r\n"]);
    assert!(matches!(
        steps.pop().unwrap(),
        ReadStep::Ready(Err(RequestError::InvalidRequestLine))
    ));
    let mut steps = feed_all(&[b"GET\r\n"]);
    assert!(matches!(
        steps.pop().unwrap(),
        ReadStep::Ready(Err(RequestError::InvalidRequestLine))
    ));
}

#[test]
fn non_utf8_uri_is_invalid() {
    let mut steps = feed_all(&[b"GET /\xff HTTP/1.1\r\n"]);
    assert!(matches!(
        steps.pop().unwrap(),
        ReadStep::Ready(Err(RequestError::InvalidRequestLine))
    ));
}

#[test]
fn all_nine_methods_are_recognized() {
    let cases: [(&[u8], Method); 9] = [
        (b"GET", Method::Get),
        (b"HEAD", Method::Head),
        (b"POST", Method::Post),
        (b"PUT", Method::Put),
        (b"DELETE", Method::Delete),
        (b"CONNECT", Method::Connect),
        (b"OPTIONS", Method::Options),
        (b"TRACE", Method::Trace),
        (b"PATCH", Method::Patch),
    ];
    for (tok, m) in cases {
        let mut req = tok.to_vec();
        req.extend_from_slice(b" /x HTTP/1.0\r\n");
        let mut steps = feed_all(&[&req]);
        let l = ready_line(steps.pop().unwrap());
        assert_eq!(l.method, m);
        assert_eq!(l.uri, "/x");
        assert_eq!(l.version, HttpVersion::Http1_0);
    }
}

#[test]
fn other_version_token_is_unknown() {
    let mut steps = feed_all(&[b"GET / HTTP/2.0\r\n"]);
    assert_eq!(ready_line(steps.pop().unwrap()).version, HttpVersion::Unknown);
}

#[test]
fn bad_request_is_answered_400() {
    let d = handle_request(Err(RequestError::InvalidRequestLine));
    match d {
        Dispatch::Reply(s, o) => {
            assert_eq!(s.code(), 400);
            assert_eq!(s.text(), "400 Bad Request");
            assert!(!o.omit_body);
        }
        other => panic!("{:?}", other),
    }
}

#[test]
fn closed_connection_gets_no_answer() {
    assert!(matches!(handle_request(Err(RequestError::ConnectionClosed)), Dispatch::Close));
}

#[test]
fn unsupported_methods_are_answered_405() {
    for m in [
        Method::Post,
        Method::Put,
        Method::Delete,
        Method::Connect,
        Method::Options,
        Method::Trace,
        Method::Patch,
    ] {
        match handle_request(line(m, "/", HttpVersion::Http1_1)) {
            Dispatch::Reply(s, _) => assert_eq!(s.code(), 405),
            other => panic!("{:?}", other),
        }
    }
}

#[test]
fn unknown_version_is_answered_505() {
    match handle_request(line(Method::Get, "/", HttpVersion::Unknown)) {
        Dispatch::Reply(s, o) => {
            assert_eq!(s.code(), 505);
            assert!(!o.omit_body);
        }
        other => panic!("{:?}", other),
    }
    match handle_request(line(Method::Head, "/", HttpVersion::Unknown)) {
        Dispatch::Reply(s, o) => {
            assert_eq!(s.code(), 505);
            assert!(o.omit_body);
        }
        other => panic!("{:?}", other),
    }
}

#[test]
fn get_and_head_are_served() {
    match handle_request(line(Method::Get, "/a.txt", HttpVersion::Http1_1)) {
        Dispatch::Serve(u, o) => {
            assert_eq!(u, "/a.txt");
            assert_eq!(o, ResponseOptions { keep_open: true, omit_body: false });
        }
        other => panic!("{:?}", other),
    }
    match handle_request(line(Method::Head, "/", HttpVersion::Http1_0)) {
        Dispatch::Serve(_, o) => {
            assert_eq!(o, ResponseOptions { keep_open: false, omit_body: true });
        }
        other => panic!("{:?}", other),
    }
}

#[test]
fn leading_slash_is_stripped_once() {
    assert_eq!(parse_path("/a/b.txt"), "a/b.txt");
    assert_eq!(parse_path("//x"), "/x");
    assert_eq!(parse_path("rel"), "rel");
    assert_eq!(parse_path(""), "");
}

#[test]
fn containment_compares_whole_components() {
    assert!(is_within_root("/srv/www", "/srv/www"));
    assert!(is_within_root("/srv/www", "/srv/www/a/b"));
    assert!(!is_within_root("/srv/www", "/srv/wwwx"));
    assert!(!is_within_root("/srv/www", "/etc/passwd"));
    assert!(!is_within_root("/srv/www", "/srv"));
    assert!(is_within_root("/", "/etc"));
}

#[test]
fn traversal_outside_root_is_not_found() {
    assert_eq!(handle_path("/srv/www", Some("/etc/passwd"), false), Target::NotFound);
    assert_eq!(handle_path("/srv/www", None, false), Target::NotFound);
    assert_eq!(handle_path("/srv/www", Some("/srv/www/sub"), true), Target::Directory);
    assert_eq!(handle_path("/srv/www", Some("/srv/www/a.txt"), false), Target::File);
}

#[test]
fn listing_marks_directories_with_slash() {
    let entries = vec![
        DirEntry { name: "a.txt".to_string(), is_dir: false },
        DirEntry { name: "sub".to_string(), is_dir: true },
    ];
    let html = text(&get_folder_body("/docs", &entries));
    assert!(html.contains("href=\"a.txt\""));
    assert!(html.contains("href=\"sub/\""));
    assert!(!html.contains("href=\"a.txt/\""));
    assert_eq!(
        html,
        "<html><head><title>Directory listing for /docs</title><head><body>\
         <h1>Directory listing for /docs</h1><hr><ul>\
         <li><a href=\"a.txt\">a.txt</li><li><a href=\"sub/\">sub/</li>\
         </ul><hr></body></html>"
    );
}

#[test]
fn empty_listing() {
    let html = text(&get_folder_body("/", &Vec::new()));
    assert!(html.contains("<ul></ul>"));
}

#[test]
fn response_head_layout() {
    let head = text(&prepare_response_body("200 Ok", "text/plain", 1234, NOW));
    assert_eq!(
        head,
        "HTTP/1.0 200 Ok\r\nDate: Sun, 06 Nov 1994 08:49:37 GMT\r\n\
         Content-Type: text/plain\r\nContent-Length: 1234\r\n\r\n"
    );
}

#[test]
fn zero_length_head() {
    let head = text(&prepare_response_body("200 Ok", "text/plain", 0, 0));
    assert!(head.contains("Date: Thu, 01 Jan 1970 00:00:00 GMT\r\n"));
    assert!(head.ends_with("Content-Length: 0\r\n\r\n"));
}

#[test]
fn status_response_carries_status_as_body() {
    let mut h = HttpHandler::new();
    h.write_status(Status::NotFound.text(), NOW, &ResponseOptions::new());
    let out = text(h.output());
    assert!(out.starts_with("HTTP/1.0 404 Not Found\r\n"));
    assert!(out.contains("Content-Type: text\r\n"));
    assert!(out.contains("Content-Length: 13\r\n"));
    assert!(out.ends_with("\r\n\r\n404 Not Found"));
}

#[test]
fn status_response_omitted_sends_nothing() {
    let mut h = HttpHandler::new();
    let o = ResponseOptions { keep_open: false, omit_body: true };
    h.write_status(Status::VersionNotSupported.text(), NOW, &o);
    assert!(h.output().is_empty());
}

#[test]
fn buffer_response_and_head_variant() {
    let mut h = HttpHandler::new();
    h.write_buffer("200 Ok", b"hello".to_vec(), "text/html", NOW, &ResponseOptions::new());
    let out = text(h.output());
    assert!(out.contains("Content-Length: 5\r\n"));
    assert!(out.ends_with("\r\n\r\nhello"));

    let o = ResponseOptions { keep_open: true, omit_body: true };
    h.write_buffer("200 Ok", b"hello".to_vec(), "text/html", NOW, &o);
    let out = text(h.output());
    assert!(out.contains("Content-Length: 5\r\n"));
    assert!(out.ends_with("\r\n\r\n"));
}

#[test]
fn streamed_file_head_declares_length_and_type() {
    let mut h = HttpHandler::new();
    let copy = serve_file_head(&mut h, "/srv/www/index.html", 4096, NOW, &ResponseOptions::new());
    assert!(copy);
    let out = text(h.output());
    assert!(out.starts_with("HTTP/1.0 200 Ok\r\n"));
    assert!(out.contains("Content-Type: text/html\r\n"));
    assert!(out.ends_with("Content-Length: 4096\r\n\r\n"));
}

#[test]
fn streamed_file_without_extension_is_octet_stream() {
    let mut h = HttpHandler::new();
    let o = ResponseOptions { keep_open: true, omit_body: true };
    let copy = serve_file_head(&mut h, "/srv/www/README", 7, NOW, &o);
    assert!(!copy);
    let out = text(h.output());
    assert!(out.contains("Content-Type: application/octet-stream\r\n"));
    assert!(out.ends_with("Content-Length: 7\r\n\r\n"));
}

#[test]
fn directory_served_as_html() {
    let mut h = HttpHandler::new();
    let entries = vec![DirEntry { name: "a.txt".to_string(), is_dir: false }];
    serve_directory(&mut h, "/", &entries, NOW, &ResponseOptions::new());
    let out = text(h.output());
    assert!(out.contains("Content-Type: text/html\r\n"));
    assert!(out.ends_with("</ul><hr></body></html>"));
}

#[test]
fn shutdown_waits_for_in_flight_connection() {
    let mut c = ShutdownCoordinator::new();
    assert!(c.on_accept());
    assert_eq!(c.in_flight(), 1);
    c.on_cancel();
    assert!(!c.accepting());
    assert!(!c.on_accept());
    assert_eq!(c.in_flight(), 1);
    assert!(!c.is_done());
    c.on_finish();
    assert!(c.is_done());
}

#[test]
fn shutdown_with_nothing_in_flight_is_done_at_once() {
    let mut c = ShutdownCoordinator::new();
    assert!(!c.is_done());
    c.on_cancel();
    assert!(c.is_done());
}

#[test]
fn method_table_is_exact() {
    assert_eq!(parse_method(b"GET"), Some(Method::Get));
    assert_eq!(parse_method(b"PATCH"), Some(Method::Patch));
    assert_eq!(parse_method(b"GETX"), None);
    assert_eq!(parse_method(b"Get"), None);
    assert_eq!(parse_method(b""), None);
}

#[test]
fn version_tokens_match_exactly() {
    assert_eq!(parse_version(b"HTTP/1.0"), HttpVersion::Http1_0);
    assert_eq!(parse_version(b"HTTP/1.1"), HttpVersion::Http1_1);
    assert_eq!(parse_version(b"http/1.1"), HttpVersion::Unknown);
    assert_eq!(parse_version(b"HTTP/1.1 "), HttpVersion::Unknown);
    assert_eq!(parse_version(b""), HttpVersion::Unknown);
}

#[test]
fn decode_keeps_first_three_fields() {
    let l = decode_request_line(b"HEAD /x%20y HTTP/1.0 extra").unwrap();
    assert_eq!(l.method, Method::Head);
    assert_eq!(l.uri, "/x%20y");
    assert_eq!(l.version, HttpVersion::Http1_0);
    let l = decode_request_line(b"GET /caf\xc3\xa9 ").unwrap();
    assert_eq!(l.version, HttpVersion::Unknown);
    assert!(matches!(decode_request_line(b""), Err(RequestError::InvalidRequestLine)));
}
