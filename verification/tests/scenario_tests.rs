//! Whole requests, from bytes to response.
use localhost_http_server::cgi::executor::CgiExecutor;
use localhost_http_server::config::types::{Config, RouteConfig, ServerConfig};
use localhost_http_server::error::{HttpStatus, ServerError};
use localhost_http_server::http::methods::{Dispatch, MethodHandler};
use localhost_http_server::http::request::{HttpMethod, HttpRequest, HttpRequestParser, ParseState};
use localhost_http_server::http::response::HttpResponse;
use localhost_http_server::routing::static_files::{FileState, StaticFileServer};
use localhost_http_server::server::connection::{ConnectionState, WriteStep};
use localhost_http_server::server::engine::{EventStep, Interest, Readiness, ReadStep, Server};

fn route(path: &str) -> RouteConfig {
    RouteConfig {
        path: path.to_string(),
        methods: vec!["GET".to_string(), "POST".to_string(), "DELETE".to_string(), "HEAD".to_string()],
        redirect: None,
        root: Some("www".to_string()),
        index: Some("index.html".to_string()),
        cgi: None,
        directory_listing: false,
        upload_enabled: false,
    }
}

fn config_with(routes: Vec<RouteConfig>, max_body_size: usize) -> Config {
    Config {
        servers: vec![ServerConfig {
            host: "127.0.0.1".to_string(),
            ports: vec![8080],
            server_name: Some("localhost".to_string()),
            error_pages: std::collections::HashMap::new(),
            max_body_size,
            routes,
        }],
    }
}

fn config_with_pages(codes: &[u16]) -> Config {
    let mut config = config_with(vec![route("/")], 1048576);
    for code in codes {
        config.servers[0].error_pages.insert(*code, format!("errors/{}.html", code));
    }
    config
}

fn parse_all(bytes: &[u8]) -> HttpRequest {
    let mut parser = HttpRequestParser::new();
    let (request, consumed) = parser.parse(bytes).expect("request is refused");
    assert_eq!(consumed, bytes.len());
    request.expect("request is not complete")
}

fn text_of(response: &HttpResponse) -> String {
    String::from_utf8_lossy(&response.to_bytes()).to_string()
}

#[test]
fn body_at_the_limit_passes_and_one_byte_more_is_too_large() {
    let handler = MethodHandler::new(config_with(vec![route("/")], 16));
    let mut request = HttpRequest::new();
    request.method = HttpMethod::GET;
    request.body = vec![b'a'; 16];
    let path = match handler.handle_request(&request) {
        Dispatch::Static { target, .. } => target.path,
        _ => panic!("a body at the limit was refused"),
    };
    let served = handler
        .static_server()
        .serve_file(&path, FileState::File { content: b"ok".to_vec(), modified: None });
    match MethodHandler::finish_static(served, false) {
        Dispatch::Respond(response) => {
            assert_eq!(response.status(), HttpStatus::Okay);
            assert_eq!(response.status().as_u16(), 200);
        }
        _ => panic!("the file was not served"),
    }
    request.body = vec![b'a'; 17];
    match handler.handle_request(&request) {
        Dispatch::Fail(status, message) => {
            assert_eq!(status, HttpStatus::RequestEntityTooLarge);
            assert_eq!(message, "Request body size (17 bytes) exceeds limit (16 bytes)");
        }
        _ => panic!("a body above the limit was not refused"),
    }
}

#[test]
fn header_line_without_colon_is_a_bad_request() {
    let mut parser = HttpRequestParser::new();
    let result = parser.parse(b"GET / HTTP/1.1\r\nHost localhost\r\n\r\n");
    match result {
        Err(e) => {
            assert!(matches!(e, ServerError::Http(_)));
            assert_eq!(e.status(), HttpStatus::BadRequest);
        }
        Ok(_) => panic!("a header line without a colon was taken"),
    }
    assert_eq!(parser.state(), ParseState::AwaitRequestLine);
}

#[test]
fn path_that_leaves_the_root_is_forbidden() {
    let server = StaticFileServer::new();
    assert_eq!(server.resolve_path("www", "/static/../../etc/passwd", "/static"), "www/../../etc/passwd");
    match StaticFileServer::check_traversal("www", Some("/srv/www"), Some("/etc/passwd")) {
        Err((status, _)) => assert_eq!(status, HttpStatus::Forbidden),
        Ok(()) => panic!("a path outside the root was let through"),
    }
    match StaticFileServer::check_traversal("www", Some("/srv/www"), Some("/srv/www-secret/x")) {
        Err((status, _)) => assert_eq!(status, HttpStatus::Forbidden),
        Ok(()) => panic!("a sibling of the root was let through"),
    }
    assert!(StaticFileServer::check_traversal("www", Some("/srv/www"), Some("/srv/www/a/b.txt")).is_ok());
    assert!(StaticFileServer::check_traversal("www", Some("/srv/www"), Some("/srv/www")).is_ok());
    assert!(StaticFileServer::check_traversal("www", Some("/srv/www"), None).is_ok());
    match StaticFileServer::check_traversal("www", None, None) {
        Err((status, e)) => {
            assert_eq!(status, HttpStatus::InternalServerError);
            assert_eq!(e.message(), "Configuration error: Invalid root directory: www");
        }
        Ok(()) => panic!("a missing root was let through"),
    }
}

#[test]
fn cgi_output_without_headers_is_an_html_page() {
    let response = CgiExecutor::parse_cgi_output_at(b"<h1>hello</h1>", 0);
    assert_eq!(response.status(), HttpStatus::Okay);
    assert_eq!(response.header("content-type"), Some(&"text/html; charset=utf-8".to_string()));
    assert_eq!(response.body(), &b"<h1>hello</h1>".to_vec());
    assert_eq!(response.header("Content-Length"), Some(&"14".to_string()));
}

#[test]
fn cgi_status_header_sets_the_status() {
    let response = CgiExecutor::parse_cgi_output_at(
        b"Status: 404 Not Found\r\nContent-Type: text/plain\r\n\r\nnothing here",
        0,
    );
    assert_eq!(response.status(), HttpStatus::NotFound);
    assert_eq!(response.header("Content-Type"), Some(&"text/plain".to_string()));
    assert_eq!(response.body(), &b"nothing here".to_vec());

    let unknown = CgiExecutor::parse_cgi_output_at(b"Status: 418 Teapot\n\nbody", 0);
    assert_eq!(unknown.status(), HttpStatus::Okay);
    assert_eq!(unknown.body(), &b"body".to_vec());
    assert_eq!(unknown.header("Content-Type"), Some(&"text/html; charset=utf-8".to_string()));
}

#[test]
fn cgi_headers_pass_through_and_the_length_follows_the_body() {
    let response = CgiExecutor::parse_cgi_output_at(
        b"X-Powered-By: test\r\ncontent-length: 999\r\nLocation: /next\r\nnot a header\r\n\r\nabc",
        0,
    );
    assert_eq!(response.header("x-powered-by"), Some(&"test".to_string()));
    assert_eq!(response.header("location"), Some(&"/next".to_string()));
    assert_eq!(response.header("content-length"), Some(&"3".to_string()));
    let text = text_of(&response);
    assert_eq!(text.matches("ontent-").filter(|_| true).count(), 2);
    assert_eq!(text.to_lowercase().matches("content-length:").count(), 1);
}

#[test]
fn cgi_header_block_with_ill_formed_bytes_is_read_leniently() {
    let response = CgiExecutor::parse_cgi_output_at(b"X-Note: a\xFFb\r\n\r\n\xFF\xFE", 0);
    assert_eq!(response.header("X-Note"), Some(&"a\u{FFFD}b".to_string()));
    assert_eq!(response.body(), &vec![0xFFu8, 0xFE]);
}

#[test]
fn static_file_is_served_with_type_and_length() {
    let mut static_route = route("/static");
    static_route.index = Some("index.html".to_string());
    let handler = MethodHandler::new(config_with(vec![static_route], 1048576));
    let request = parse_all(b"GET /static/test.txt HTTP/1.1\r\nHost: localhost\r\n\r\n");
    let dispatch = handler.handle_request(&request);
    let path = match dispatch {
        Dispatch::Static { target, index, listing, url_path, head } => {
            assert_eq!(target.root, "www");
            assert_eq!(index, Some("index.html".to_string()));
            assert!(!listing);
            assert!(!head);
            assert_eq!(url_path, "/static/test.txt");
            target.path
        }
        _ => panic!("the request was not taken for a file"),
    };
    assert_eq!(path, "www/test.txt");
    let response = handler
        .static_server()
        .serve_file_at(
            &path,
            FileState::File { content: b"Hello, World!".to_vec(), modified: Some(784111777) },
            0,
        )
        .expect("the file was not served");
    assert_eq!(response.status(), HttpStatus::Okay);
    assert_eq!(response.body(), &b"Hello, World!".to_vec());
    assert_eq!(response.header("Content-Length"), Some(&"13".to_string()));
    assert_eq!(response.header("Content-Type"), Some(&"text/plain; charset=utf-8".to_string()));
    assert_eq!(
        response.header("Last-Modified"),
        Some(&"Sun, 06 Nov 1994 08:49:37 GMT".to_string())
    );
    assert_eq!(response.header("Cache-Control"), Some(&"public, max-age=3600".to_string()));
    assert!(text_of(&response).starts_with("HTTP/1.1 200 OK\r\n"));
}

#[test]
fn cgi_post_is_run_and_its_output_returned() {
    let mut cgi_route = route("/cgi-bin");
    cgi_route.cgi = Some("python3".to_string());
    let config = config_with(vec![cgi_route], 1048576);
    let handler = MethodHandler::new(config);
    let request = parse_all(
        b"POST /cgi-bin/echo.py HTTP/1.1\r\nHost: x\r\nContent-Length: 11\r\n\r\nhello=world",
    );
    assert_eq!(request.body, b"hello=world");
    let (target, si, ri) = match handler.handle_request(&request) {
        Dispatch::Cgi { target, server, route } => (target, server, route),
        _ => panic!("the request was not taken for a script"),
    };
    assert_eq!(target.path, "www/echo.py");
    let server = &handler.router().servers()[si];
    let command = handler
        .cgi_executor()
        .execute(&request, server, &server.routes[ri], &target.path)
        .expect("no command");
    assert_eq!(command.interpreter, "python3");
    assert_eq!(command.script_path, "www/echo.py");
    assert_eq!(command.input, b"hello=world");
    assert_eq!(command.environment.get("REQUEST_METHOD"), Some(&"POST".to_string()));
    assert_eq!(command.environment.get("CONTENT_LENGTH"), Some(&"11".to_string()));
    assert_eq!(command.environment.get("PATH_INFO"), Some(&"echo.py".to_string()));
    assert_eq!(command.environment.get("SERVER_PORT"), Some(&"8080".to_string()));
    let response = handler
        .cgi_executor()
        .finish_at(true, b"Content-Type: text/plain\r\n\r\nGOT:hello=world", 0)
        .expect("the output was refused");
    assert_eq!(response.status(), HttpStatus::Okay);
    assert_eq!(response.body(), &b"GOT:hello=world".to_vec());
    assert_eq!(response.header("Content-Type"), Some(&"text/plain".to_string()));
}

#[test]
fn delete_on_an_upload_route_removes_the_file() {
    let mut upload = route("/upload");
    upload.upload_enabled = true;
    let handler = MethodHandler::new(config_with(vec![upload], 1048576));
    let request = parse_all(b"DELETE /upload/file.bin HTTP/1.1\r\nHost: localhost\r\n\r\n");
    match handler.handle_request(&request) {
        Dispatch::Delete { target, allowed } => {
            assert_eq!(target.path, "www/file.bin");
            assert!(allowed);
        }
        _ => panic!("the request was not taken for a deletion"),
    }
    match MethodHandler::finish_delete_at(true, true, true, 0) {
        Dispatch::Respond(response) => {
            assert_eq!(response.status(), HttpStatus::NoContent);
            assert!(response.body().is_empty());
        }
        _ => panic!("a deletion that went well was not confirmed"),
    }
    assert!(matches!(
        MethodHandler::finish_delete_at(false, true, false, 0),
        Dispatch::Fail(HttpStatus::NotFound, _)
    ));
    assert!(matches!(
        MethodHandler::finish_delete_at(true, false, false, 0),
        Dispatch::Fail(HttpStatus::Forbidden, _)
    ));
    assert!(matches!(
        MethodHandler::finish_delete_at(true, true, false, 0),
        Dispatch::Fail(HttpStatus::InternalServerError, _)
    ));
}

#[test]
fn http_1_0_without_connection_header_closes() {
    let mut server = Server::new(config_with(vec![route("/")], 1048576));
    assert!(server.accept_at(7, 1000));
    let request = match server.handle_read_at(7, b"GET / HTTP/1.0\r\n\r\n", 1001) {
        ReadStep::Handle(request) => request,
        _ => panic!("the request was not complete"),
    };
    assert!(!request.keep_alive());
    let response = HttpResponse::text_at(HttpStatus::Okay, "hi", 0);
    assert_eq!(
        server.send_response_at(7, response, request.keep_alive(), 1002),
        Some(Interest::Writable)
    );
    let wire = server.pending_output(7).expect("nothing to send").to_vec();
    let text = String::from_utf8_lossy(&wire).to_string();
    assert!(text.contains("\r\nConnection: close\r\n"));
    assert!(!text.contains("keep-alive"));
    assert_eq!(server.handle_write_at(7, wire.len(), 1003), Some(WriteStep::Close));
    assert!(server.connection_manager().get_connection(7).is_none());
}

#[test]
fn pipelined_requests_are_answered_in_order() {
    let mut server = Server::new(config_with(vec![route("/")], 1048576));
    assert!(server.accept_at(9, 0));
    let both = b"GET /first HTTP/1.1\r\nHost: a\r\n\r\nGET /second HTTP/1.1\r\nHost: a\r\n\r\n";
    let first = match server.handle_read_at(9, both, 1) {
        ReadStep::Handle(request) => request,
        _ => panic!("the first request was not complete"),
    };
    assert_eq!(first.path, "/first");
    assert!(first.keep_alive());
    let response = HttpResponse::text_at(HttpStatus::Okay, "one", 0);
    assert_eq!(server.send_response_at(9, response, true, 2), Some(Interest::Writable));
    let wire = server.pending_output(9).expect("nothing to send").to_vec();
    assert!(String::from_utf8_lossy(&wire).ends_with("\r\n\r\none"));
    // a partial write leaves the rest to be sent
    assert_eq!(server.handle_write_at(9, 10, 3), Some(WriteStep::More));
    assert_eq!(server.pending_output(9).map(|b| b.len()), Some(wire.len() - 10));
    assert_eq!(server.handle_write_at(9, wire.len() - 10, 4), Some(WriteStep::Pipelined));
    {
        let connection = server.connection_manager().get_connection(9).expect("gone");
        assert_eq!(connection.state, ConnectionState::Reading);
        assert_eq!(connection.request_count, 1);
    }
    let second = match server.continue_read(9) {
        ReadStep::Handle(request) => request,
        _ => panic!("the second request was not complete"),
    };
    assert_eq!(second.path, "/second");
    let response = HttpResponse::text_at(HttpStatus::Okay, "two", 0);
    assert_eq!(server.send_response_at(9, response, true, 6), Some(Interest::Writable));
    let wire = server.pending_output(9).expect("nothing to send").to_vec();
    assert!(String::from_utf8_lossy(&wire).ends_with("\r\n\r\ntwo"));
    assert_eq!(server.handle_write_at(9, wire.len(), 7), Some(WriteStep::Await));
    let connection = server.connection_manager().get_connection(9).expect("gone");
    assert_eq!(connection.state, ConnectionState::KeepAlive);
    assert_eq!(connection.http_parser.state(), ParseState::AwaitRequestLine);
    assert_eq!(connection.request_count, 2);
}

#[test]
fn body_of_two_mebibytes_is_too_large() {
    let mut cgi_route = route("/cgi-bin");
    cgi_route.cgi = Some("python3".to_string());
    let handler = MethodHandler::new(config_with(vec![cgi_route], 1048576));
    let mut bytes = b"POST /cgi-bin/hello.py HTTP/1.1\r\nHost: x\r\nContent-Length: 2097152\r\n\r\n".to_vec();
    bytes.extend(std::iter::repeat(b'a').take(2 * 1024 * 1024));
    let request = parse_all(&bytes);
    assert_eq!(request.body.len(), 2 * 1024 * 1024);
    match handler.handle_request(&request) {
        Dispatch::Fail(status, _) => {
            assert_eq!(status, HttpStatus::RequestEntityTooLarge);
            assert_eq!(status.as_u16(), 413);
            assert_eq!(status.reason_phrase(), "Request Entity Too Large");
        }
        _ => panic!("a body above the limit was not refused"),
    }
}

#[test]
fn bytes_that_are_no_request_are_answered_400() {
    let mut server = Server::new(config_with(vec![route("/")], 1048576));
    assert!(server.accept_at(3, 0));
    assert!(matches!(server.handle_read_at(3, b"NONSENSE\r\n\r\n", 1000), ReadStep::Reject));
    assert_eq!(server.reject_at(3, None, 1000), Some(Interest::Writable));
    let wire = server.pending_output(3).expect("nothing to send").to_vec();
    let text = String::from_utf8_lossy(&wire).to_string();
    assert!(text.starts_with("HTTP/1.1 400 Bad Request\r\n"));
    assert!(text.contains("\r\nConnection: close\r\n"));
    assert!(text.contains("\r\nX-Content-Type-Options: nosniff\r\n"));
    assert!(text.contains("\r\nX-Frame-Options: DENY\r\n"));
    assert!(text.contains("\r\nX-XSS-Protection: 1; mode=block\r\n"));
    assert!(text.contains("\r\nContent-Type: text/html; charset=utf-8\r\n"));
    assert!(text.contains("<h1>400</h1>"));
    assert!(text.contains("<h2>Bad Request</h2>"));
    assert!(text.contains("Invalid HTTP request"));
    assert_eq!(server.handle_write_at(3, wire.len(), 1001), Some(WriteStep::Close));
    assert_eq!(server.get_stats().1.error_count, 1);
    assert!(server.accept_at(3, 0));
    assert!(matches!(server.handle_read_at(3, b"\r\n", 1), ReadStep::Reject));
    assert_eq!(server.reject_at(3, Some("<b>bad</b>"), 784111777000), Some(Interest::Writable));
    let wire = server.pending_output(3).expect("nothing to send").to_vec();
    let text = String::from_utf8_lossy(&wire).to_string();
    assert!(text.starts_with("HTTP/1.1 400 Bad Request\r\n"));
    assert!(text.contains("\r\nDate: Sun, 06 Nov 1994 08:49:37 GMT\r\n"));
    assert!(text.contains("<h2>Bad Request</h2>"));
    assert!(!text.contains("<b>bad</b>"));
    assert_eq!(server.reject_at(44, None, 0), None);
    let mut paged = Server::new(config_with_pages(&[400]));
    assert!(paged.accept_at(3, 0));
    assert!(matches!(paged.handle_read_at(3, b"\r\n", 1), ReadStep::Reject));
    assert_eq!(paged.reject_at(3, Some("<b>bad</b>"), 784111777000), Some(Interest::Writable));
    let wire = paged.pending_output(3).expect("nothing to send").to_vec();
    let text = String::from_utf8_lossy(&wire).to_string();
    assert!(text.starts_with("HTTP/1.1 400 Bad Request\r\n"));
    assert!(text.contains("\r\nContent-Length: 10\r\n"));
    assert!(text.ends_with("\r\n\r\n<b>bad</b>"));
}

#[test]
fn errors_and_hangups_come_first() {
    let mut server = Server::new(config_with(vec![route("/")], 1048576));
    server.add_listener(4, "127.0.0.1".to_string(), 8080);
    let all = Readiness { readable: true, writable: true, error: true, hangup: false };
    assert_eq!(server.handle_event(4, all), EventStep::Teardown);
    assert_eq!(server.handle_event(5, all), EventStep::Teardown);
    let hangup = Readiness { readable: true, writable: false, error: false, hangup: true };
    assert_eq!(server.handle_event(5, hangup), EventStep::Teardown);
    let readable = Readiness { readable: true, writable: false, error: false, hangup: false };
    assert_eq!(server.handle_event(4, readable), EventStep::Accept);
    assert_eq!(server.handle_event(5, readable), EventStep::Transfer { read: true, write: false });
    let writable = Readiness { readable: false, writable: true, error: false, hangup: false };
    assert_eq!(server.handle_event(4, writable), EventStep::Ignore);
    assert_eq!(server.handle_event(5, writable), EventStep::Transfer { read: false, write: true });
    let none = Readiness { readable: false, writable: false, error: false, hangup: false };
    assert_eq!(server.handle_event(5, none), EventStep::Ignore);
    assert!(server.start().is_ok());
    assert_eq!(server.endpoints(), vec![("127.0.0.1".to_string(), 8080)]);
    assert!(server.accept_at(11, 0));
    assert_eq!(server.shutdown(), vec![11, 4]);
    assert_eq!(server.connection_manager().connection_count(), 0);
    assert_eq!(server.shutdown(), Vec::<i32>::new());
}

#[test]
fn a_server_without_listeners_does_not_start() {
    let mut server = Server::new(config_with(vec![route("/")], 1048576));
    assert!(matches!(server.start(), Err(ServerError::Config(_))));
}

#[test]
fn request_without_route_is_not_found() {
    let handler = MethodHandler::new(config_with(vec![route("/only")], 1048576));
    let request = parse_all(b"GET /other HTTP/1.1\r\nHost: localhost\r\n\r\n");
    assert!(matches!(handler.handle_request(&request), Dispatch::Fail(HttpStatus::NotFound, _)));
}

#[test]
fn method_that_the_route_does_not_list_is_not_allowed() {
    let mut only_get = route("/");
    only_get.methods = vec!["GET".to_string()];
    let handler = MethodHandler::new(config_with(vec![only_get], 1048576));
    let request = parse_all(b"DELETE /x HTTP/1.1\r\nHost: localhost\r\n\r\n");
    match handler.handle_request(&request) {
        Dispatch::Fail(status, message) => {
            assert_eq!(status, HttpStatus::MethodNotAllowed);
            assert_eq!(message, "Method DELETE not allowed for this route");
        }
        _ => panic!("a method that is not listed was let through"),
    }
}

#[test]
fn redirect_comes_before_every_other_handler() {
    let mut moved = route("/old");
    moved.redirect = Some("/new".to_string());
    moved.cgi = Some("python3".to_string());
    let handler = MethodHandler::new(config_with(vec![moved], 1048576));
    let request = parse_all(b"GET /old/page HTTP/1.1\r\nHost: localhost\r\n\r\n");
    match handler.handle_request_at(&request, 784111777) {
        Dispatch::Respond(response) => {
            assert_eq!(response.status(), HttpStatus::Found);
            assert_eq!(response.header("Location"), Some(&"/new".to_string()));
            assert_eq!(response.header("Date"), Some(&"Sun, 06 Nov 1994 08:49:37 GMT".to_string()));
        }
        _ => panic!("the redirect was not taken"),
    }
}

#[test]
fn head_and_post_and_other_methods() {
    let mut upload = route("/");
    upload.upload_enabled = true;
    upload.methods.push("PUT".to_string());
    let handler = MethodHandler::new(config_with(vec![upload], 1048576));
    let head = parse_all(b"HEAD /a HTTP/1.1\r\nHost: localhost\r\n\r\n");
    assert!(matches!(handler.handle_request(&head), Dispatch::Static { head: true, .. }));
    let post = parse_all(b"POST /a HTTP/1.1\r\nHost: localhost\r\nContent-Length: 1\r\n\r\nx");
    match handler.handle_request(&post) {
        Dispatch::Upload { root } => assert_eq!(root, "www"),
        _ => panic!("the upload was not taken"),
    }
    let put = parse_all(b"PUT /a HTTP/1.1\r\nHost: localhost\r\n\r\n");
    match handler.handle_request(&put) {
        Dispatch::Fail(status, message) => {
            assert_eq!(status, HttpStatus::MethodNotAllowed);
            assert_eq!(message, "Method PUT not implemented");
        }
        _ => panic!("a method without a handler was let through"),
    }
    assert_eq!(MethodHandler::upload_filename(1700000000, 3), "upload_1700000000_3.bin");
    match MethodHandler::finish_upload_at("www/upload_1_0.bin", true, 0) {
        Dispatch::Respond(response) => {
            assert_eq!(response.status(), HttpStatus::Created);
            assert_eq!(
                response.body(),
                &b"File uploaded successfully: www/upload_1_0.bin".to_vec()
            );
        }
        _ => panic!("an upload that went well was not confirmed"),
    }
}

#[test]
fn parsed_path_begins_with_slash_and_holds_no_escape() {
    for target in ["/", "/a/b", "/a%20b", "/%7Euser/x%2Fy", "/caf%C3%A9?q=%25", "/a+b"] {
        let bytes = format!("GET {} HTTP/1.1\r\nHost: h\r\n\r\n", target);
        let request = parse_all(bytes.as_bytes());
        assert!(request.path.starts_with('/'), "{:?}", request.path);
        assert!(!request.path.contains('%'), "{:?}", request.path);
        assert_eq!(request.uri, target);
    }
    assert_eq!(parse_all(b"GET /a+b%2B HTTP/1.1\r\n\r\n").path, "/a+b+");
    // an escape that stands for the percent sign itself leaves one behind
    assert_eq!(parse_all(b"GET /%2541 HTTP/1.1\r\n\r\n").path, "/%41");
    // an escaped slash at the front is a slash
    assert_eq!(parse_all(b"GET %2Fa HTTP/1.1\r\n\r\n").path, "/a");
    // a target whose path does not begin with a slash is refused
    for target in ["foo", "*", "?a=1", "%41/", "http://host/x"] {
        let mut parser = HttpRequestParser::new();
        let line = format!("GET {} HTTP/1.1\r\n\r\n", target);
        match parser.parse(line.as_bytes()) {
            Err(e) => assert_eq!(e.message(), format!("HTTP error: Invalid request target: {}", target)),
            Ok(_) => panic!("{:?} was taken", target),
        }
        assert_eq!(parser.state(), ParseState::AwaitRequestLine);
    }
}

#[test]
fn every_response_has_one_content_length_that_fits_the_body() {
    let mut responses = vec![
        HttpResponse::new(HttpStatus::Okay),
        HttpResponse::text(HttpStatus::Okay, "hello"),
        HttpResponse::redirect("/x", false),
        HttpResponse::error(HttpStatus::NotFound, None),
        CgiExecutor::parse_cgi_output_at(b"Content-Length: 1\r\nCONTENT-LENGTH: 2\r\n\r\nbody", 0),
    ];
    let mut tampered = HttpResponse::file(HttpStatus::Okay, vec![0; 300], "application/octet-stream");
    tampered.add_header("Content-length", "7");
    tampered.add_header("CONTENT-LENGTH", "8");
    responses.push(tampered);
    for response in &mut responses {
        response.set_keep_alive(true);
        let wire = response.to_bytes();
        let end = wire.windows(4).position(|w| w == b"\r\n\r\n").expect("no blank line");
        let head = String::from_utf8(wire[..end].to_vec()).unwrap();
        let body = &wire[end + 4..];
        let lengths: Vec<&str> = head
            .split("\r\n")
            .skip(1)
            .filter_map(|line| line.split_once(':'))
            .filter(|(name, _)| name.eq_ignore_ascii_case("content-length"))
            .map(|(_, value)| value.trim())
            .collect();
        assert_eq!(lengths, vec![body.len().to_string().as_str()]);
        assert_eq!(body, response.body().as_slice());
        for name in ["server", "date", "connection"] {
            let count = head
                .split("\r\n")
                .skip(1)
                .filter(|line| line.to_lowercase().starts_with(&format!("{}:", name)))
                .count();
            assert_eq!(count, 1, "{} in {:?}", name, head);
        }
    }
}

#[test]
fn encoded_response_reads_back() {
    let mut response = HttpResponse::new_at(HttpStatus::Created, 784111777);
    response.set_content_type("text/plain; charset=utf-8");
    response.add_header("X-Mixed-Case", "a: b");
    response.add_header("Set-Cookie", "k=v; Path=/");
    response.set_body_string("hi".to_string());
    response.set_keep_alive(false);
    let wire = response.to_bytes();
    let end = wire.windows(4).position(|w| w == b"\r\n\r\n").unwrap();
    // the head is read by the request parser's own header reader
    let mut reread = b"GET / HTTP/1.1\r\n".to_vec();
    let head = &wire[..end + 4];
    let first_line_end = head.windows(2).position(|w| w == b"\r\n").unwrap();
    let status_line = String::from_utf8(head[..first_line_end].to_vec()).unwrap();
    reread.extend_from_slice(&wire[first_line_end + 2..]);
    let mut words = status_line.split_whitespace();
    assert_eq!(words.next().and_then(localhost_http_server::http::request::HttpVersion::from_str), Some(response.version()));
    assert_eq!(
        words.next().and_then(|c| c.parse().ok()).and_then(HttpStatus::from_u16),
        Some(response.status())
    );
    let mut parser = HttpRequestParser::new();
    let (request, _) = parser.parse(&reread).unwrap();
    let request = request.unwrap();
    assert_eq!(request.headers.len(), response.headers().len());
    let mut i = 0;
    while i < response.headers().len() {
        let name = response.headers().key_at(i);
        let value = response.headers().value_at(i);
        assert_eq!(request.headers.key_at(i), &name.to_lowercase());
        assert_eq!(request.headers.value_at(i), value);
        i += 1;
    }
    assert_eq!(request.headers.get("content-length"), Some(&"2".to_string()));
}

#[test]
fn flows_around_files_and_scripts() {
    assert!(MethodHandler::check_target("www", Some("/srv/www"), Some("/srv/www/x")).is_none());
    assert!(MethodHandler::check_target("www", Some("/srv/www"), None).is_none());
    match MethodHandler::check_target("www", Some("/srv/www"), Some("/srv/other")) {
        Some(Dispatch::Fail(status, message)) => {
            assert_eq!(status, HttpStatus::Forbidden);
            assert_eq!(status.as_u16(), 403);
            assert_eq!(message, "Path traversal attempt detected");
        }
        _ => panic!("a path outside the root was let through"),
    }
    match MethodHandler::check_target("www", None, Some("/srv/other")) {
        Some(Dispatch::Error(reason)) => assert_eq!(reason, "Invalid root directory: www"),
        _ => panic!("a root that is not there was let through"),
    }
    assert!(MethodHandler::check_script(true, true).is_none());
    assert!(matches!(
        MethodHandler::check_script(false, false),
        Some(Dispatch::Fail(HttpStatus::NotFound, _))
    ));
    assert!(matches!(
        MethodHandler::check_script(true, false),
        Some(Dispatch::Fail(HttpStatus::Forbidden, _))
    ));
    assert!(MethodHandler::check_file(true).is_none());
    assert!(matches!(
        MethodHandler::check_file(false),
        Some(Dispatch::Fail(HttpStatus::NotFound, _))
    ));
    assert!(matches!(
        MethodHandler::finish_cgi(Err(ServerError::Cgi(
            localhost_http_server::error::CgiFailure::Timeout,
            "CGI script timeout".to_string()
        ))),
        Dispatch::Fail(HttpStatus::InternalServerError, _)
    ));
    assert!(matches!(
        MethodHandler::finish_cgi(Ok(HttpResponse::text_at(HttpStatus::Okay, "x", 0))),
        Dispatch::Respond(_)
    ));
    match MethodHandler::finish_static(Ok(HttpResponse::text_at(HttpStatus::Okay, "body", 0)), true) {
        Dispatch::Respond(response) => {
            assert!(response.body().is_empty());
            assert_eq!(response.header("Content-Length"), Some(&"0".to_string()));
            assert_eq!(response.header("Content-Type"), Some(&"text/plain; charset=utf-8".to_string()));
        }
        _ => panic!("the response was lost"),
    }
    let unread = StaticFileServer::new()
        .serve_file_at("www/x", FileState::Unreadable("permission denied".to_string()), 0);
    match MethodHandler::finish_static(unread, false) {
        Dispatch::Error(reason) => assert_eq!(reason, "Failed to read file: permission denied"),
        _ => panic!("the failure was lost"),
    }
    match MethodHandler::directory_failure(None) {
        Dispatch::Fail(status, message) => {
            assert_eq!(status, HttpStatus::Forbidden);
            assert_eq!(message, "Directory listing disabled");
        }
        _ => panic!("a directory without listing was served"),
    }
    match MethodHandler::directory_failure(Some("permission denied")) {
        Dispatch::Error(reason) => assert_eq!(reason, "Failed to read directory: permission denied"),
        _ => panic!("the failure was lost"),
    }
    match MethodHandler::finish_upload_at("www/up/upload_1_0.bin", false, 0) {
        Dispatch::Error(reason) => assert_eq!(reason, "Failed to save uploaded file"),
        _ => panic!("the failure was lost"),
    }
    let handler = MethodHandler::new(config_with(vec![route("/")], 10));
    let failed = handler.error_response_at(None, 0);
    assert_eq!(failed.status(), HttpStatus::InternalServerError);
    let failed_page = String::from_utf8(failed.body().clone()).unwrap();
    assert!(failed_page.contains("<p>Internal server error</p>"));
    assert!(!failed_page.contains("permission denied"));
    let page = handler.fail_response_at(HttpStatus::NotFound, "gone", None, 0);
    assert!(String::from_utf8(page.body().clone()).unwrap().contains("<p>gone</p>"));
    let unasked = handler.fail_response_at(HttpStatus::NotFound, "gone", Some("<i>custom</i>"), 0);
    assert_eq!(unasked.body(), page.body());
    let paged = MethodHandler::new(config_with_pages(&[404, 500]));
    assert_eq!(paged.error_response_at(Some("<b>oops</b>"), 0).body(), &b"<b>oops</b>".to_vec());
    let custom = paged.fail_response_at(HttpStatus::NotFound, "gone", Some("<i>custom</i>"), 0);
    assert_eq!(custom.body(), &b"<i>custom</i>".to_vec());
    assert_eq!(custom.status(), HttpStatus::NotFound);
    assert_eq!(custom.header("X-Frame-Options"), Some(&"DENY".to_string()));
    let unread = paged.fail_response_at(HttpStatus::NotFound, "gone", None, 0);
    assert_eq!(unread.body(), page.body());
    let other = paged.fail_response_at(HttpStatus::Forbidden, "no", Some("<i>custom</i>"), 0);
    assert!(String::from_utf8(other.body().clone()).unwrap().contains("<p>no</p>"));
}

#[test]
fn data_that_arrives_while_a_response_is_sent_waits() {
    let mut server = Server::new(config_with(vec![route("/")], 1048576));
    assert!(server.accept_at(6, 0));
    let first = match server.handle_read_at(6, b"GET /1 HTTP/1.1\r\n\r\n", 1) {
        ReadStep::Handle(request) => request,
        _ => panic!("the first request was not complete"),
    };
    let response = HttpResponse::text_at(HttpStatus::Okay, "1", 0);
    assert!(server.send_response_at(6, response, first.keep_alive(), 2).is_some());
    assert!(matches!(server.handle_read_at(6, b"GET /2 HT", 3), ReadStep::Wait));
    let n = server.pending_output(6).unwrap().len();
    assert_eq!(server.handle_write_at(6, n, 4), Some(WriteStep::Pipelined));
    assert!(matches!(server.continue_read(6), ReadStep::Wait));
    match server.handle_read_at(6, b"TP/1.1\r\n\r\n", 6) {
        ReadStep::Handle(request) => assert_eq!(request.path, "/2"),
        _ => panic!("the second request was not complete"),
    }
    assert!(matches!(server.handle_read_at(99, b"x", 7), ReadStep::Unknown));
    assert!(server.teardown(6));
    assert!(!server.teardown(6));
    assert_eq!(server.cleanup_timed_out_connections_at(u64::MAX), Vec::<i32>::new());
}
