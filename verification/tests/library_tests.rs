//! Exact values and edge cases.
use localhost_http_server::bytes::find_sequence;
use localhost_http_server::cgi::executor::{CgiExecutor, CgiStep};
use localhost_http_server::config::parser::parse_config;
use localhost_http_server::config::types::{Config, ServerConfig};
use localhost_http_server::error::{CgiFailure, HttpStatus, ServerError};
use localhost_http_server::error::pages::{generate_error_page, ErrorPageManager};
use localhost_http_server::http::headers::{HeaderNames, Headers};
use localhost_http_server::http::request::{
    url_decode, HttpMethod, HttpRequest, HttpRequestParser, HttpVersion, ParseState,
};
use localhost_http_server::http::response::HttpResponse;
use localhost_http_server::number::{format_u64, parse_u64};
use localhost_http_server::routing::router::Router;
use localhost_http_server::routing::static_files::{
    format_file_size, DirectoryStep, DirEntry, FileState, StaticFileServer,
};
use localhost_http_server::server::address::{parse_ip_address, resolve_host};
use localhost_http_server::server::connection::{
    Connection, ConnectionManager, ConnectionState, ParseStep, WriteStep,
};
use localhost_http_server::server::engine::{EventStep, Interest, ReadStep, Readiness, Server};
use localhost_http_server::server::events::{events_for, readiness_of};
use localhost_http_server::session::cookie::{Cookie, CookieJar, SameSite};
use localhost_http_server::session::manager::{Session, SessionConfig, SessionManager};
use localhost_http_server::split::{split_chars, split_lines, split_words};
use localhost_http_server::strmap::StrMap;
use localhost_http_server::text::{chars_of, string_of, trimmed};
use localhost_http_server::utils::buffer::Buffer;
use localhost_http_server::utils::clock::{now_millis, now_secs};
use localhost_http_server::utils::date::{civil_from_days, fmt_http_date, format_time};
use localhost_http_server::utils::mime::MimeDetector;
use localhost_http_server::utils::timeout::{ConnectionInfo, TimeoutManager, TimeoutStats};

fn strings(rows: Vec<Vec<char>>) -> Vec<String> {
    rows.iter().map(|r| string_of(r)).collect()
}

#[test]
fn text_round_trips_through_characters() {
    let text = "héllo, wörld \u{1F4C1}";
    assert_eq!(string_of(&chars_of(text)), text);
    assert_eq!(chars_of("ab"), vec!['a', 'b']);
    assert_eq!(string_of(&[]), "");
}

#[test]
fn trimming_and_splitting() {
    assert_eq!(string_of(&trimmed(&chars_of(" \t a b \r\n"))), "a b");
    assert_eq!(string_of(&trimmed(&chars_of("\u{3000}x\u{A0}"))), "x");
    assert_eq!(string_of(&trimmed(&chars_of("   "))), "");
    assert_eq!(strings(split_chars(&chars_of("a;b;;c;"), ';')), vec!["a", "b", "", "c", ""]);
    assert_eq!(strings(split_chars(&chars_of(""), ';')), vec![""]);
    assert_eq!(strings(split_words(&chars_of("  GET   /x\tHTTP/1.1 "))), vec!["GET", "/x", "HTTP/1.1"]);
    assert!(split_words(&chars_of(" \t ")).is_empty());
    assert_eq!(strings(split_lines(&chars_of("a\r\nb\nc\r"))), vec!["a", "b", "c\r"]);
    assert_eq!(strings(split_lines(&chars_of("a\n\n"))), vec!["a", ""]);
    assert!(split_lines(&chars_of("")).is_empty());
}

#[test]
fn numbers_in_text() {
    assert_eq!(string_of(&format_u64(0)), "0");
    assert_eq!(string_of(&format_u64(18446744073709551615)), "18446744073709551615");
    assert_eq!(parse_u64(&chars_of("13"), 100), Some(13));
    assert_eq!(parse_u64(&chars_of("+13"), 100), Some(13));
    assert_eq!(parse_u64(&chars_of("100"), 100), Some(100));
    assert_eq!(parse_u64(&chars_of("101"), 100), None);
    assert_eq!(parse_u64(&chars_of("18446744073709551616"), u64::MAX), None);
    assert_eq!(parse_u64(&chars_of("18446744073709551615"), u64::MAX), Some(u64::MAX));
    assert_eq!(parse_u64(&chars_of(""), 100), None);
    assert_eq!(parse_u64(&chars_of("+"), 100), None);
    assert_eq!(parse_u64(&chars_of("-1"), 100), None);
    assert_eq!(parse_u64(&chars_of("1a"), 100), None);
    assert_eq!(parse_u64(&chars_of("007"), 100), Some(7));
}

#[test]
fn dates() {
    assert_eq!(fmt_http_date(0), "Thu, 01 Jan 1970 00:00:00 GMT");
    assert_eq!(fmt_http_date(784111777), "Sun, 06 Nov 1994 08:49:37 GMT");
    assert_eq!(fmt_http_date(951782400), "Tue, 29 Feb 2000 00:00:00 GMT");
    assert_eq!(fmt_http_date(4107542399), "Sun, 28 Feb 2100 23:59:59 GMT");
    assert_eq!(fmt_http_date(4107542400), "Mon, 01 Mar 2100 00:00:00 GMT");
    assert_eq!(format_time(784111777), "1994-11-06 08:49:37");
    assert_eq!(civil_from_days(0), (1970, 1, 1));
    assert_eq!(civil_from_days(365), (1971, 1, 1));
    assert_eq!(civil_from_days(19722), (2023, 12, 31));
    assert_eq!(civil_from_days(146097), (2370, 1, 1));
    let far = civil_from_days(u64::MAX / 86400);
    assert!(far.0 > 584_000_000_000 && (1..=12).contains(&far.1) && (1..=31).contains(&far.2));
    assert!(fmt_http_date(u64::MAX).ends_with(" 07:00:15 GMT"));
}

#[test]
fn the_clock_runs() {
    let millis = now_millis();
    let secs = now_secs();
    assert!(millis > 1_600_000_000_000);
    assert!(secs >= millis / 1000);
    assert!(secs - millis / 1000 <= 1);
}

#[test]
fn maps_keep_order_and_replace_in_place() {
    let mut map = StrMap::new();
    assert!(map.is_empty());
    assert_eq!(map.insert("b".to_string(), "1".to_string()), None);
    assert_eq!(map.insert("a".to_string(), "2".to_string()), None);
    assert_eq!(map.insert("b".to_string(), "3".to_string()), Some("1".to_string()));
    assert_eq!(map.len(), 2);
    assert_eq!(map.keys(), vec![&"b".to_string(), &"a".to_string()]);
    assert_eq!(map.get("b"), Some(&"3".to_string()));
    assert_eq!(map.get("B"), None);
    assert!(map.contains_key("a"));
    assert_eq!(map.remove("b"), Some("3".to_string()));
    assert_eq!(map.remove("b"), None);
    assert_eq!(map.key_at(0), "a");
    assert_eq!(map.value_at(0), "2");
    let copy = map.clone();
    map.clear();
    assert_eq!(map.len(), 0);
    assert_eq!(copy.len(), 1);
}

#[test]
fn percent_decoding() {
    assert_eq!(url_decode("/a%20b", false).unwrap(), "/a b");
    assert_eq!(url_decode("/a+b", false).unwrap(), "/a+b");
    assert_eq!(url_decode("a+b%2B", true).unwrap(), "a b+");
    assert_eq!(url_decode("%2f%2F", false).unwrap(), "//");
    assert_eq!(url_decode("%E9", false).unwrap(), "\u{e9}");
    assert_eq!(url_decode("%2541", false).unwrap(), "%41");
    assert_eq!(url_decode("", false).unwrap(), "");
    for bad in ["%", "%4", "%4g", "%g4", "abc%", "%+f", "% 1"] {
        match url_decode(bad, true) {
            Err(ServerError::Http(_)) => {}
            _ => panic!("the escape in {:?} was taken", bad),
        }
    }
}

#[test]
fn methods_and_versions() {
    for (name, method) in [
        ("GET", HttpMethod::GET),
        ("POST", HttpMethod::POST),
        ("DELETE", HttpMethod::DELETE),
        ("HEAD", HttpMethod::HEAD),
        ("PUT", HttpMethod::PUT),
        ("OPTIONS", HttpMethod::OPTIONS),
        ("PATCH", HttpMethod::PATCH),
    ] {
        assert_eq!(HttpMethod::from_str(name), Some(method));
        assert_eq!(HttpMethod::from_str(&name.to_lowercase()), Some(method));
        assert_eq!(method.as_str(), name);
    }
    assert_eq!(HttpMethod::from_str("GETS"), None);
    assert_eq!(HttpMethod::from_str(""), None);
    assert_eq!(HttpVersion::from_str("HTTP/1.0"), Some(HttpVersion::Http10));
    assert_eq!(HttpVersion::from_str("HTTP/1.1"), Some(HttpVersion::Http11));
    assert_eq!(HttpVersion::from_str("http/1.1"), None);
    assert_eq!(HttpVersion::from_str("HTTP/2"), None);
    assert_eq!(HttpVersion::Http10.as_str(), "HTTP/1.0");
}

#[test]
fn status_codes() {
    for (code, status, reason) in [
        (200, HttpStatus::Okay, "OK"),
        (201, HttpStatus::Created, "Created"),
        (204, HttpStatus::NoContent, "No Content"),
        (301, HttpStatus::MovedPermanently, "Moved Permanently"),
        (302, HttpStatus::Found, "Found"),
        (400, HttpStatus::BadRequest, "Bad Request"),
        (403, HttpStatus::Forbidden, "Forbidden"),
        (404, HttpStatus::NotFound, "Not Found"),
        (405, HttpStatus::MethodNotAllowed, "Method Not Allowed"),
        (413, HttpStatus::RequestEntityTooLarge, "Request Entity Too Large"),
        (500, HttpStatus::InternalServerError, "Internal Server Error"),
    ] {
        assert_eq!(status.as_u16(), code);
        assert_eq!(status.reason_phrase(), reason);
        assert_eq!(HttpStatus::from_u16(code), Some(status));
    }
    assert_eq!(HttpStatus::from_u16(418), None);
    assert_eq!(ServerError::Http("x".to_string()).status(), HttpStatus::BadRequest);
    assert_eq!(ServerError::Routing("x".to_string()).status(), HttpStatus::NotFound);
    assert_eq!(ServerError::Config("x".to_string()).status(), HttpStatus::InternalServerError);
    assert_eq!(ServerError::Io("x".to_string()).status(), HttpStatus::InternalServerError);
    assert_eq!(
        ServerError::Cgi(CgiFailure::Timeout, "x".to_string()).status(),
        HttpStatus::InternalServerError
    );
    assert_eq!(ServerError::Internal("x".to_string()).status(), HttpStatus::InternalServerError);
    assert_eq!(ServerError::Config("bad".to_string()).message(), "Configuration error: bad");
    assert_eq!(ServerError::Io("bad".to_string()).message(), "I/O error: bad");
    assert_eq!(ServerError::Http("bad".to_string()).message(), "HTTP error: bad");
    assert_eq!(
        ServerError::Cgi(CgiFailure::Spawn, "bad".to_string()).message(),
        "CGI error: bad"
    );
    assert_eq!(ServerError::Routing("bad".to_string()).message(), "Routing error: bad");
    assert_eq!(ServerError::Internal("bad".to_string()).message(), "Internal error: bad");
}

#[test]
fn byte_search() {
    assert_eq!(find_sequence(b"abc\r\ndef\r\n", b"\r\n"), Some(3));
    assert_eq!(find_sequence(b"abc\r", b"\r\n"), None);
    assert_eq!(find_sequence(b"", b"\r\n"), None);
    assert_eq!(find_sequence(b"\r\n", b"\r\n"), Some(0));
    assert_eq!(find_sequence(b"a\r\r\n", b"\r\n"), Some(2));
    assert_eq!(find_sequence(b"abc", b""), Some(0));
}

#[test]
fn request_parsing_in_detail() {
    let bytes = b"get /a%20b/c?x=1&y=a+b&z&x=2 HTTP/1.1\r\nHost:  example.org:8080 \r\nX-Empty:\r\nCookie: a=1; b = 2 ;c\r\n\r\nrest";
    let mut parser = HttpRequestParser::new();
    let (request, consumed) = parser.parse(bytes).unwrap();
    let request = request.unwrap();
    assert_eq!(consumed, bytes.len() - 4);
    assert!(parser.is_complete());
    assert_eq!(request.method, HttpMethod::GET);
    assert_eq!(request.uri, "/a%20b/c?x=1&y=a+b&z&x=2");
    assert_eq!(request.path, "/a b/c");
    assert_eq!(request.query_params.get("x"), Some(&"2".to_string()));
    assert_eq!(request.query_params.get("y"), Some(&"a b".to_string()));
    assert_eq!(request.query_params.get("z"), Some(&"".to_string()));
    assert_eq!(request.query_params.len(), 3);
    assert_eq!(request.get_header("HOST"), Some(&"example.org:8080".to_string()));
    assert_eq!(request.headers.get("host"), Some(&"example.org:8080".to_string()));
    assert_eq!(request.get_header("x-empty"), Some(&"".to_string()));
    assert_eq!(request.cookies.len(), 2);
    assert_eq!(request.cookies.get("a").unwrap().value, "1");
    assert_eq!(request.cookies.get("b").unwrap().value, "2");
    assert!(request.body.is_empty());
    assert_eq!(request.content_length(), None);
    assert!(!request.is_chunked());
    assert!(request.keep_alive());
    parser.reset();
    assert_eq!(parser.state(), ParseState::AwaitRequestLine);
    assert!(!parser.is_complete());
}

#[test]
fn requests_that_are_refused() {
    for bad in [
        &b"GET /\r\n\r\n"[..],
        b"GET / HTTP/1.1 extra\r\n\r\n",
        b"FETCH / HTTP/1.1\r\n\r\n",
        b"GET / HTTP/2.0\r\n\r\n",
        b"GET /%zz HTTP/1.1\r\n\r\n",
        b"GET /?a=%1 HTTP/1.1\r\n\r\n",
        b"GET /\xff HTTP/1.1\r\n\r\n",
        b"GET / HTTP/1.1\r\nX: \xff\r\n\r\n",
        b"GET / HTTP/1.1\r\nTransfer-Encoding: Chunked\r\n\r\n",
        b"POST / HTTP/1.1\r\nContent-Length: 0\r\nTransfer-Encoding: chunked\r\n\r\n",
        b"POST / HTTP/1.1\r\nTransfer-Encoding: chunked\r\nContent-Length: x\r\n\r\n",
        b"GET relative HTTP/1.1\r\n\r\n",
        b"OPTIONS * HTTP/1.1\r\n\r\n",
        b"GET / HTTP/1.1\r\nno colon here\r\n\r\n",
    ] {
        let mut parser = HttpRequestParser::new();
        match parser.parse(bad) {
            Err(ServerError::Http(_)) => {}
            _ => panic!("{:?} was taken", String::from_utf8_lossy(bad)),
        }
        assert_eq!(parser.state(), ParseState::AwaitRequestLine);
    }
}

#[test]
fn refusals_say_why() {
    let why = |bytes: &[u8]| match HttpRequestParser::new().parse(bytes) {
        Err(e) => e.message(),
        Ok(_) => panic!("{:?} was taken", String::from_utf8_lossy(bytes)),
    };
    assert_eq!(why(b"GET /\r\n\r\n"), "HTTP error: Invalid request line");
    assert_eq!(why(b"FETCH / HTTP/1.1\r\n\r\n"), "HTTP error: Unknown HTTP method: FETCH");
    assert_eq!(why(b"GET / HTTP/2.0\r\n\r\n"), "HTTP error: Unsupported HTTP version: HTTP/2.0");
    assert_eq!(why(b"GET /%zz HTTP/1.1\r\n\r\n"), "HTTP error: Invalid URL encoding");
    assert_eq!(why(b"GET /\xff HTTP/1.1\r\n\r\n"), "HTTP error: Invalid UTF-8 in request line");
    assert_eq!(why(b"GET / HTTP/1.1\r\nX: \xff\r\n\r\n"), "HTTP error: Invalid UTF-8 in headers");
    assert_eq!(
        why(b"GET / HTTP/1.1\r\nA: b\r\nno colon here\r\nnor here\r\n\r\n"),
        "HTTP error: Invalid header line: no colon here"
    );
    assert_eq!(
        why(b"GET / HTTP/1.1\r\nTransfer-Encoding: chunked\r\n\r\n"),
        "HTTP error: Chunked transfer encoding is not supported"
    );
    assert_eq!(
        why(b"POST / HTTP/1.1\r\nContent-Length: 0\r\nTransfer-Encoding: chunked\r\n\r\n"),
        "HTTP error: Chunked transfer encoding is not supported"
    );
    assert_eq!(why(b"GET a/b HTTP/1.1\r\n\r\n"), "HTTP error: Invalid request target: a/b");
    assert_eq!(why(b"GET a%zz HTTP/1.1\r\n\r\n"), "HTTP error: Invalid URL encoding");
    // a positive length is taken as it stands, whatever the transfer encoding says
    let (sized, used) = HttpRequestParser::new()
        .parse(b"POST / HTTP/1.1\r\nContent-Length: 2\r\nTransfer-Encoding: chunked\r\n\r\nok")
        .unwrap();
    assert_eq!(sized.unwrap().body, b"ok".to_vec());
    assert_eq!(used, 68);
    let config = |text: &str| match parse_config(text) {
        Err(e) => e.message(),
        Ok(_) => panic!("{:?} was taken", text),
    };
    assert_eq!(config("server\n"), "Configuration error: Expected '{' after server");
    assert_eq!(config("server {\n port\n}"), "Configuration error: port requires a value");
    assert_eq!(config("server {\n port 70000\n}"), "Configuration error: Invalid port: 70000");
    assert_eq!(config("server {\n host\n}"), "Configuration error: host requires a value");
    assert_eq!(
        config("server {\n server_name\n}"),
        "Configuration error: server_name requires a value"
    );
    assert_eq!(
        config("server {\n error_page 404\n}"),
        "Configuration error: error_page requires status code and path"
    );
    assert_eq!(
        config("server {\n error_page x y\n}"),
        "Configuration error: Invalid status code: x"
    );
    assert_eq!(
        config("server {\n max_body_size\n}"),
        "Configuration error: max_body_size requires a value"
    );
    assert_eq!(
        config("server {\n max_body_size -1\n}"),
        "Configuration error: Invalid max_body_size: -1"
    );
    assert_eq!(config("server {\n listen 80\n}"), "Configuration error: Unknown directive: listen");
    assert_eq!(config("server {\n route\n}"), "Configuration error: route requires a path");
    assert_eq!(
        config("server {\n route /x\n}"),
        "Configuration error: Expected '{' after route path"
    );
    for (directive, message) in [
        ("redirect", "redirect requires a URL"),
        ("root", "root requires a path"),
        ("index", "index requires a filename"),
        ("cgi", "cgi requires an interpreter"),
        ("directory_listing", "directory_listing requires on/off"),
        ("upload_enabled", "upload_enabled requires on/off"),
        ("frobnicate 1", "Unknown route directive: frobnicate"),
    ] {
        assert_eq!(
            config(&format!("server {{\n route /x {{\n  {}\n }}\n}}", directive)),
            format!("Configuration error: {}", message)
        );
    }
    let twice = parse_config("server {\n port 80\n}\nserver {\n port 80\n}\n").unwrap();
    assert_eq!(
        twice.validate().unwrap_err().message(),
        "Configuration error: Duplicate port 80 for host 127.0.0.1"
    );
    let router = Router::new(&Config { servers: vec![] });
    assert_eq!(
        router.validate().unwrap_err().message(),
        "Configuration error: No servers configured"
    );
    assert_eq!(
        router.find_route(None, "/").unwrap_err().message(),
        "Configuration error: No servers configured"
    );
    let routed = Router::new(&parse_config("server {\n route /a {\n }\n route b {\n }\n}").unwrap());
    assert_eq!(
        routed.validate().unwrap_err().message(),
        "Configuration error: Route path must start with '/': b"
    );
    assert_eq!(
        routed.find_route(None, "nowhere").unwrap_err().message(),
        "Routing error: No matching route found"
    );
    assert_eq!(
        parse_ip_address("1.2.3").unwrap_err().message(),
        "Configuration error: Invalid IP address: 1.2.3"
    );
    let mut timeouts = TimeoutManager::new(1, 1, 0);
    assert_eq!(timeouts.add_connection(1), Err("Maximum connections reached".to_string()));
    let mut registry = ConnectionManager::with_limits_at(1, 1, 0, 0);
    assert_eq!(registry.add_connection(1), Err("Maximum connections reached".to_string()));
    let mut settings = SessionConfig::default();
    settings.max_sessions = 0;
    assert_eq!(
        SessionManager::new(settings).create_session(),
        Err("Maximum number of sessions reached".to_string())
    );
}

#[test]
fn request_is_the_same_however_the_bytes_arrive() {
    let bytes = b"POST /submit?k=v HTTP/1.1\r\nHost: localhost\r\nContent-Length: 5\r\nCookie: s=1\r\n\r\nhellonext";
    let mut whole = HttpRequestParser::new();
    let (expected, used) = whole.parse(bytes).unwrap();
    let expected = expected.unwrap();
    assert_eq!(used, bytes.len() - 4);
    for cut in 0..=bytes.len() {
        let mut parser = HttpRequestParser::new();
        let (first, taken) = parser.parse(&bytes[..cut]).unwrap();
        let (request, total) = match first {
            Some(request) => (request, taken),
            None => {
                let (second, more) = parser.parse(&bytes[taken..]).unwrap();
                (second.expect("the request was not complete"), taken + more)
            }
        };
        assert_eq!(total, used, "cut at {}", cut);
        assert_eq!(request.method, expected.method);
        assert_eq!(request.uri, expected.uri);
        assert_eq!(request.path, expected.path);
        assert_eq!(request.body, expected.body);
        assert_eq!(request.get_header("host"), expected.get_header("host"));
        assert_eq!(request.headers.len(), expected.headers.len());
        assert_eq!(request.query_params.get("k"), Some(&"v".to_string()));
        assert_eq!(request.cookies.len(), 1);
    }
}

#[test]
fn more_is_needed_until_the_request_is_whole() {
    let mut parser = HttpRequestParser::new();
    assert!(matches!(parser.parse(b"GET / HT"), Ok((None, 0))));
    assert_eq!(parser.state(), ParseState::AwaitRequestLine);
    assert!(matches!(parser.parse(b"GET / HTTP/1.1\r\nHost: a"), Ok((None, 16))));
    assert_eq!(parser.state(), ParseState::AwaitHeaders);
    assert!(matches!(parser.parse(b"Host: a\r\nContent-Length: 3\r\n\r\nab"), Ok((None, 30))));
    assert_eq!(parser.state(), ParseState::AwaitBody(3));
    let (request, used) = parser.parse(b"abc").unwrap();
    assert_eq!(used, 3);
    assert_eq!(request.unwrap().body, b"abc");
    assert_eq!(parser.state(), ParseState::Complete);
    let (again, used) = parser.parse(b"more").unwrap();
    assert_eq!(used, 0);
    assert_eq!(again.unwrap().body, b"abc");
}

#[test]
fn keep_alive_follows_version_and_header() {
    let mut request = HttpRequest::new();
    request.version = HttpVersion::Http11;
    assert!(request.keep_alive());
    request.add_header("Connection", "Close");
    assert!(!request.keep_alive());
    request.add_header("connection", "keep-alive");
    assert!(request.keep_alive());
    request.version = HttpVersion::Http10;
    assert!(request.keep_alive());
    request.add_header("CONNECTION", "Keep-Alive");
    assert!(request.keep_alive());
    request.add_header("connection", "whatever");
    assert!(!request.keep_alive());
    let mut plain = HttpRequest::new();
    plain.version = HttpVersion::Http10;
    assert!(!plain.keep_alive());
    plain.add_header("Content-Length", "12");
    assert_eq!(plain.content_length(), Some(12));
    plain.add_header("Content-Length", "x");
    assert_eq!(plain.content_length(), None);
    plain.add_header("Transfer-Encoding", "gzip, CHUNKED");
    assert!(plain.is_chunked());
}

#[test]
fn response_bytes() {
    let mut response = HttpResponse::new_at(HttpStatus::NotFound, 784111777);
    assert_eq!(
        response.to_bytes(),
        b"HTTP/1.1 404 Not Found\r\nServer: localhost-http-server/0.1.0\r\nDate: Sun, 06 Nov 1994 08:49:37 GMT\r\nContent-Length: 0\r\n\r\n".to_vec()
    );
    response.set_body(b"abc".to_vec());
    response.add_header("content-length", "17");
    response.add_header("X-A", "1");
    response.add_header("x-a", "2");
    response.set_keep_alive(true);
    response.set_content_type("text/plain");
    assert_eq!(
        String::from_utf8(response.to_bytes()).unwrap(),
        "HTTP/1.1 404 Not Found\r\nServer: localhost-http-server/0.1.0\r\nDate: Sun, 06 Nov 1994 08:49:37 GMT\r\nContent-Length: 3\r\nx-a: 2\r\nConnection: keep-alive\r\nContent-Type: text/plain\r\n\r\nabc"
    );
    response.set_keep_alive(false);
    assert_eq!(response.header("connection"), Some(&"close".to_string()));
    response.clear_body();
    assert_eq!(response.header("Content-Length"), Some(&"0".to_string()));
    assert!(response.body().is_empty());
    response.set_status(HttpStatus::Okay);
    assert_eq!(response.status(), HttpStatus::Okay);
    assert_eq!(response.version(), HttpVersion::Http11);
    assert_eq!(response.headers().len(), 6);
    let copy = response.clone();
    assert_eq!(copy.to_bytes(), response.to_bytes());
}

#[test]
fn response_makers() {
    let text = HttpResponse::text(HttpStatus::Okay, "h\u{e9}");
    assert_eq!(text.header("Content-Type"), Some(&"text/plain; charset=utf-8".to_string()));
    assert_eq!(text.body(), &"h\u{e9}".as_bytes().to_vec());
    assert_eq!(text.header("Content-Length"), Some(&"3".to_string()));
    let html = HttpResponse::html(HttpStatus::Created, "<p>");
    assert_eq!(html.status(), HttpStatus::Created);
    assert_eq!(html.header("Content-Type"), Some(&"text/html; charset=utf-8".to_string()));
    let json = HttpResponse::json(HttpStatus::Okay, "{}");
    assert_eq!(json.header("Content-Type"), Some(&"application/json; charset=utf-8".to_string()));
    let file = HttpResponse::file(HttpStatus::Okay, vec![1, 2, 3], "image/png");
    assert_eq!(file.header("Content-Type"), Some(&"image/png".to_string()));
    assert_eq!(file.body(), &vec![1u8, 2, 3]);
    let moved = HttpResponse::redirect("/there", true);
    assert_eq!(moved.status(), HttpStatus::MovedPermanently);
    assert_eq!(moved.header("Location"), Some(&"/there".to_string()));
    assert_eq!(
        String::from_utf8(moved.body().clone()).unwrap(),
        "<!DOCTYPE html>\n<html><head><title>Redirect</title></head>\n<body><h1>Redirect</h1><p>This page has moved to <a href=\"/there\">/there</a></p></body></html>"
    );
    let found = HttpResponse::redirect("/there", false);
    assert_eq!(found.status(), HttpStatus::Found);
    let error = HttpResponse::error(HttpStatus::Forbidden, None);
    assert_eq!(
        String::from_utf8(error.body().clone()).unwrap(),
        "<!DOCTYPE html>\n<html><head><title>403 Forbidden</title></head>\n<body><h1>403 Forbidden</h1><p>403 Forbidden</p></body></html>"
    );
    let told = HttpResponse::error(HttpStatus::Forbidden, Some("no"));
    assert!(String::from_utf8(told.body().clone()).unwrap().contains("<p>no</p>"));
    assert!(told.header("Date").unwrap().ends_with(" GMT"));
}

#[test]
fn header_collection() {
    let mut headers = Headers::new();
    assert!(headers.is_empty());
    headers.add("Content-Type", "text/html; charset = x ; charset=UTF-8 ;q=1");
    headers.add("CONTENT-LENGTH", "42");
    headers.add("Connection", "Keep-Alive");
    headers.add("Transfer-Encoding", "chunked");
    headers.add("Host", "h");
    headers.add("User-Agent", "ua");
    headers.add("Cookie", "a=1; b=2; a=3; junk");
    assert_eq!(headers.len(), 7);
    assert!(headers.contains("content-type"));
    assert!(headers.contains(HeaderNames::COOKIE));
    assert_eq!(headers.get("content-length"), Some(&"42".to_string()));
    assert_eq!(headers.content_length(), Some(42));
    assert!(headers.keep_alive());
    assert!(headers.is_chunked());
    assert_eq!(headers.host(), Some(&"h".to_string()));
    assert_eq!(headers.user_agent(), Some(&"ua".to_string()));
    assert_eq!(
        headers.parse_content_type(),
        Some(("text/html".to_string(), Some("UTF-8".to_string())))
    );
    let cookies = headers.cookies();
    assert_eq!(cookies.len(), 2);
    assert_eq!(cookies.get("a"), Some(&"3".to_string()));
    assert_eq!(headers.iter()[0], (&"content-type".to_string(), headers.content_type().unwrap()));
    assert_eq!(headers.remove("HOST"), Some("h".to_string()));
    assert_eq!(headers.host(), None);
    headers.add("content-type", "text/plain");
    assert_eq!(headers.parse_content_type(), Some(("text/plain".to_string(), None)));
    headers.clear();
    assert_eq!(headers.len(), 0);
    assert_eq!(headers.parse_content_type(), None);
    assert!(!headers.keep_alive());
}

#[test]
fn routing() {
    let text = "server {\n server_name a\n port 80\n route /api {\n }\n route /api/v1/ {\n }\n route /apix {\n }\n route / {\n }\n}\nserver {\n server_name b\n port 81\n route /only {\n }\n}\n";
    let config = parse_config(text).unwrap();
    let router = Router::new(&config);
    assert!(router.validate().is_ok());
    assert_eq!(router.servers().len(), 2);
    assert_eq!(router.servers()[0].routes.len(), 4);
    assert_eq!(router.servers()[1].routes.len(), 1);
    assert!(matches!(router.find_route(Some("b"), "/elsewhere"), Err(ServerError::Routing(_))));
    let path_of = |host: Option<&str>, path: &str| {
        router.find_route(host, path).map(|(s, r)| (s.server_name.clone().unwrap(), r.path.clone()))
    };
    assert_eq!(path_of(Some("a"), "/api").unwrap(), ("a".to_string(), "/api".to_string()));
    assert_eq!(path_of(Some("a:80"), "/api/x").unwrap().1, "/api");
    assert_eq!(path_of(Some("a"), "/api/v1/x").unwrap().1, "/api/v1/");
    assert_eq!(path_of(Some("a"), "/api/v1").unwrap().1, "/api");
    assert_eq!(path_of(Some("a"), "/apix").unwrap().1, "/apix");
    assert_eq!(path_of(Some("a"), "/apixy").unwrap().1, "/");
    assert_eq!(path_of(Some("b"), "/only/x").unwrap(), ("b".to_string(), "/only".to_string()));
    assert_eq!(path_of(Some("unknown"), "/api").unwrap().0, "a");
    assert_eq!(path_of(None, "/api").unwrap().0, "a");
    assert!(matches!(router.find_route(None, "nothing"), Err(ServerError::Routing(_))));
    assert!(Router::path_matches_route("/a/b", "/a"));
    assert!(Router::path_matches_route("/a", "/a"));
    assert!(!Router::path_matches_route("/ab", "/a"));
    assert!(Router::path_matches_route("/a/b", "/a/"));
    assert!(!Router::path_matches_route("/a", "/a/"));
    let empty = Router::new(&Config { servers: vec![] });
    assert!(matches!(empty.find_route(None, "/"), Err(ServerError::Config(_))));
    assert!(matches!(empty.validate(), Err(ServerError::Config(_))));
    let mut no_routes = ServerConfig::default();
    no_routes.routes.clear();
    let bare = Router::new(&Config { servers: vec![no_routes] });
    assert!(matches!(bare.validate(), Err(ServerError::Config(_))));
    let mut relative = ServerConfig::default();
    relative.routes[0].path = "x".to_string();
    let odd = Router::new(&Config { servers: vec![relative] });
    assert!(matches!(odd.validate(), Err(ServerError::Config(_))));
}

#[test]
fn configuration_text() {
    let config = parse_config("# nothing\n\n").unwrap();
    assert_eq!(config.servers.len(), 1);
    assert_eq!(config.servers[0].host, "127.0.0.1");
    assert!(config.servers[0].ports.is_empty());
    assert_eq!(config.servers[0].max_body_size, 1048576);
    assert_eq!(config.servers[0].routes.len(), 1);
    assert_eq!(config.servers[0].routes[0].methods, vec!["GET", "POST", "DELETE"]);
    let text = "server {\n  host 0.0.0.0\n  port 8080\n  port 8081\n  error_page 404 errors/404.html\n  # comment\n  route /up {\n    methods get delete\n    redirect /x\n    cgi python3\n    upload_enabled on\n    directory_listing yes\n  }\n";
    let config = parse_config(text).unwrap();
    let server = &config.servers[0];
    assert_eq!(server.host, "0.0.0.0");
    assert_eq!(server.ports, vec![8080, 8081]);
    assert_eq!(server.error_pages.get(&404), Some(&"errors/404.html".to_string()));
    assert_eq!(server.routes.len(), 1);
    let route = &server.routes[0];
    assert_eq!(route.path, "/up");
    assert_eq!(route.methods, vec!["GET", "DELETE"]);
    assert_eq!(route.redirect, Some("/x".to_string()));
    assert_eq!(route.cgi, Some("python3".to_string()));
    assert!(route.upload_enabled);
    assert!(!route.directory_listing);
    assert_eq!(route.root, Some("www".to_string()));
    assert!(config.validate().is_ok());
    for bad in [
        "server\n",
        "server {\n port\n}",
        "server {\n port 70000\n}",
        "server {\n port x\n}",
        "server {\n host\n}",
        "server {\n error_page 404\n}",
        "server {\n error_page x y\n}",
        "server {\n max_body_size -1\n}",
        "server {\n listen 80\n}",
        "server {\n route /x\n}",
        "server {\n route /x {\n  root\n }\n}",
        "server {\n route /x {\n  frobnicate 1\n }\n}",
        "server_name x\n",
    ] {
        assert!(matches!(parse_config(bad), Err(ServerError::Config(_))), "{:?} was taken", bad);
    }
    let braces = parse_config("server {\n route {\n }\n}").unwrap();
    assert_eq!(braces.servers[0].routes.len(), 1);
    assert_eq!(braces.servers[0].routes[0].path, "{");
    assert_eq!(
        braces.validate().unwrap_err().message(),
        "Configuration error: Route path must start with '/': {"
    );
    let first = parse_config("server {\n route / {\n  root site\n }\n route /api {\n }\n}").unwrap();
    assert_eq!(first.servers[0].routes.len(), 2);
    assert_eq!(first.servers[0].routes[0].path, "/");
    assert_eq!(first.servers[0].routes[0].root, Some("site".to_string()));
    assert_eq!(first.servers[0].routes[1].path, "/api");
    assert!(first.validate().is_ok());
    let routeless = parse_config("server {\n port 80\n}\nserver {\n port 81\n route /x {\n }\n}").unwrap();
    assert_eq!(routeless.servers[0].routes.len(), 1);
    assert_eq!(routeless.servers[0].routes[0].path, "/");
    assert_eq!(routeless.servers[0].routes[0].methods, vec!["GET", "POST", "DELETE"]);
    assert_eq!(routeless.servers[1].routes.len(), 1);
    assert_eq!(routeless.servers[1].routes[0].path, "/x");
    let twice = parse_config("server {\n port 80\n}\nserver {\n port 80\n}\n").unwrap();
    assert!(matches!(twice.validate(), Err(ServerError::Config(_))));
    let apart = parse_config("server {\n port 80\n}\nserver {\n host 10.0.0.1\n port 80\n}\n").unwrap();
    assert!(apart.validate().is_ok());
    assert_eq!(
        apart.endpoints(),
        vec![("127.0.0.1".to_string(), 80), ("10.0.0.1".to_string(), 80)]
    );
    let mut pathless = Config::default();
    assert!(pathless.validate().is_ok());
    pathless.servers[0].routes[0].path = String::new();
    assert_eq!(
        pathless.validate().unwrap_err().message(),
        "Configuration error: Route path cannot be empty"
    );
    let mut relative = Config::default();
    relative.servers[0].routes[0].path = "api".to_string();
    assert_eq!(
        relative.validate().unwrap_err().message(),
        "Configuration error: Route path must start with '/': api"
    );
    let late = parse_config("server {\n port 80\n route /a {\n }\n}\nserver {\n port 80\n route b {\n }\n}").unwrap();
    assert_eq!(
        late.validate().unwrap_err().message(),
        "Configuration error: Duplicate port 80 for host 127.0.0.1"
    );
}

#[test]
fn addresses() {
    assert_eq!(parse_ip_address("127.0.0.1").unwrap(), 0x7f000001);
    assert_eq!(parse_ip_address("255.255.255.255").unwrap(), 0xffffffff);
    assert_eq!(parse_ip_address("1.2.3.4").unwrap(), 0x01020304);
    for bad in ["", "1.2.3", "1.2.3.4.5", "256.1.1.1", "a.b.c.d", "1..2.3", "1.2.3.-4"] {
        assert!(matches!(parse_ip_address(bad), Err(ServerError::Config(_))));
    }
    assert_eq!(resolve_host("0.0.0.0").unwrap(), 0);
    assert_eq!(resolve_host("*").unwrap(), 0);
    assert_eq!(resolve_host("10.0.0.1").unwrap(), 0x0a000001);
    assert!(resolve_host("localhost").is_err());
}

#[test]
fn file_sizes() {
    assert_eq!(format_file_size(0), "0 B");
    assert_eq!(format_file_size(24), "24 B");
    assert_eq!(format_file_size(1023), "1023 B");
    assert_eq!(format_file_size(1024), "1.0 KB");
    assert_eq!(format_file_size(1536), "1.5 KB");
    assert_eq!(format_file_size(1075), "1.0 KB");
    assert_eq!(format_file_size(1076), "1.1 KB");
    assert_eq!(format_file_size(1048575), "1024.0 KB");
    assert_eq!(format_file_size(1048576), "1.0 MB");
    assert_eq!(format_file_size(5 * 1073741824), "5.0 GB");
    assert_eq!(format_file_size(1099511627776), "1.0 TB");
    assert_eq!(format_file_size(u64::MAX), "16777216.0 TB");
}

fn entry(name: &str, is_dir: bool, size: Option<u64>, modified: Option<u64>) -> DirEntry {
    DirEntry { name: name.to_string(), is_dir, size, modified }
}

#[test]
fn directory_listing() {
    let entries = vec![
        entry("b.txt", false, Some(24), Some(784111777)),
        entry("zdir", true, Some(4096), None),
        entry("a.txt", false, None, None),
        entry("B.txt", false, Some(2048), Some(0)),
        entry("adir", true, None, Some(0)),
        entry("a", false, Some(1), Some(0)),
    ];
    let sorted = StaticFileServer::sort_entries(entries);
    let names: Vec<&str> = sorted.iter().map(|e| e.name.as_str()).collect();
    assert_eq!(names, vec!["adir", "zdir", "B.txt", "a", "a.txt", "b.txt"]);
    let html = StaticFileServer::render_listing(&sorted, "/static/");
    assert!(html.starts_with("<!DOCTYPE html>\n<html><head>\n<title>Directory Listing</title>\n"));
    assert!(html.contains("<h1>Directory listing for /static/</h1>\n"));
    assert!(html.contains("<p><a href=\"/static/../\">\u{1F4C1} Parent Directory</a></p>\n"));
    assert!(html.contains("<tr><td><a href=\"/static/b.txt\">\u{1F4C4} b.txt</a></td><td class=\"size\">24 B</td><td class=\"date\">1994-11-06 08:49:37</td></tr>\n"));
    assert!(html.contains("<tr><td><a href=\"/static/zdir\">\u{1F4C1} zdir/</a></td><td class=\"size\">-</td><td class=\"date\">-</td></tr>\n"));
    assert!(html.contains("<td class=\"size\">2.0 KB</td>"));
    assert!(html.ends_with("</table>\n</body></html>"));
    assert!(html.find("adir").unwrap() < html.find("B.txt").unwrap());
    let root = StaticFileServer::render_listing(&vec![], "/");
    assert!(!root.contains("Parent Directory"));
    let nested = StaticFileServer::render_listing(&vec![entry("x", false, None, None)], "/a/b");
    assert!(nested.contains("<a href=\"/a/\">\u{1F4C1} Parent Directory</a>"));
    assert!(nested.contains("<a href=\"/a/b/x\">"));
    let server = StaticFileServer::new();
    let page = server.generate_directory_listing(vec![entry("x", false, Some(0), None)], "/d/");
    assert_eq!(page.status(), HttpStatus::Okay);
    assert_eq!(page.header("Content-Type"), Some(&"text/html; charset=utf-8".to_string()));
}

#[test]
fn files_and_directories() {
    let server = StaticFileServer::new();
    assert_eq!(server.resolve_path("www", "/static/a/b.txt", "/static"), "www/a/b.txt");
    assert_eq!(server.resolve_path("www/", "/static/a", "/static/"), "www/a");
    assert_eq!(server.resolve_path("www", "/static", "/static"), "www");
    assert_eq!(server.resolve_path("www", "/other", "/static"), "www/other");
    assert_eq!(server.resolve_path("www", "/static//etc", "/static"), "/etc");
    assert_eq!(server.resolve_path("", "/x", "/"), "x");
    let missing = server.serve_file("www/x", FileState::Missing).unwrap();
    assert_eq!(missing.status(), HttpStatus::NotFound);
    let odd = server.serve_file("www/x", FileState::NotAFile).unwrap();
    assert_eq!(odd.status(), HttpStatus::Forbidden);
    assert_eq!(
        server.serve_file("www/x", FileState::Unreadable("busy".to_string())).unwrap_err().message(),
        "HTTP error: Failed to read file: busy"
    );
    let plain = server
        .serve_file("www/x.JSON", FileState::File { content: b"{}".to_vec(), modified: None })
        .unwrap();
    assert_eq!(plain.header("Content-Type"), Some(&"application/json; charset=utf-8".to_string()));
    assert_eq!(plain.header("Last-Modified"), None);
    assert_eq!(server.serve_directory(Some("index.html"), true, false), DirectoryStep::ServeIndex);
    assert_eq!(server.serve_directory(Some("index.html"), false, true), DirectoryStep::List);
    assert_eq!(server.serve_directory(None, true, true), DirectoryStep::List);
    assert_eq!(server.serve_directory(None, false, false), DirectoryStep::Forbid);
}

#[test]
fn mime_types() {
    let mut detector = MimeDetector::new();
    assert_eq!(detector.supported_extensions().len(), 54);
    assert_eq!(detector.detect_from_filename("a.tar.gz"), "application/gzip");
    assert_eq!(detector.detect_from_filename("a."), "application/octet-stream");
    assert_eq!(detector.detect_from_filename(".css"), "text/css; charset=utf-8");
    assert_eq!(detector.detect_from_path("/a.b/file"), "application/octet-stream");
    assert_eq!(detector.detect_from_path("/a/.css"), "application/octet-stream");
    assert_eq!(detector.detect_from_path("/a/.."), "application/octet-stream");
    assert_eq!(detector.detect_from_path("x.PNG"), "image/png");
    assert_eq!(detector.detect_from_path("/a/b.c/d.txt"), "text/plain; charset=utf-8");
    detector.add_mapping("XYZ", "chemical/x-xyz");
    assert_eq!(detector.detect_from_filename("m.xyz"), "chemical/x-xyz");
    assert!(detector.is_compressible("image/svg+xml"));
    assert!(detector.is_text_type("application/javascript; charset=utf-8"));
    assert!(!detector.is_text_type("application/pdf"));
}

#[test]
fn error_pages() {
    let mut manager = ErrorPageManager::new();
    assert!(!manager.has_custom_page(404));
    manager.set_custom_page(404, "errors/404.html".to_string());
    manager.set_custom_page(500, "errors/500.html".to_string());
    manager.set_custom_page(403, "errors/403.html".to_string());
    assert!(manager.has_custom_page(404));
    assert_eq!(manager.custom_page(HttpStatus::NotFound), Some(&"errors/404.html".to_string()));
    assert_eq!(manager.custom_page(HttpStatus::BadRequest), None);
    assert_eq!(manager.get_custom_pages().len(), 3);
    assert_eq!(
        manager.page_list(),
        vec![
            (403, "errors/403.html".to_string()),
            (404, "errors/404.html".to_string()),
            (500, "errors/500.html".to_string())
        ]
    );
    assert!(manager.validate_custom_pages(&[500, 404, 403]).is_ok());
    assert_eq!(
        manager.validate_custom_pages(&[404]),
        Err(vec![
            "Error page file not found for status 403: errors/403.html".to_string(),
            "Error page file not found for status 500: errors/500.html".to_string()
        ])
    );
    manager.remove_custom_page(403);
    assert!(!manager.has_custom_page(403));
    let page = ErrorPageManager::generate_default_error_page(HttpStatus::NotFound, None);
    assert!(page.starts_with("<!DOCTYPE html>\n<html lang=\"en\">"));
    assert!(page.contains("<title>404 - Not Found</title>"));
    assert!(page.contains("<h1>404</h1>\n        <h2>Not Found</h2>\n        <p>The server encountered an error processing your request.</p>"));
    assert!(page.ends_with("</body>\n</html>"));
    let response = manager.generate_error_response(HttpStatus::NotFound, Some("gone"));
    assert_eq!(response.status(), HttpStatus::NotFound);
    assert!(String::from_utf8(response.body().clone()).unwrap().contains("<p>gone</p>"));
    assert_eq!(response.header("X-Frame-Options"), Some(&"DENY".to_string()));
    let custom = manager.generate_custom_error_response(HttpStatus::NotFound, "<b>404</b>");
    assert_eq!(custom.body(), &b"<b>404</b>".to_vec());
    assert_eq!(custom.header("Content-Type"), Some(&"text/html; charset=utf-8".to_string()));
    assert_eq!(custom.header("X-Content-Type-Options"), Some(&"nosniff".to_string()));
    assert!(manager.has_custom_page(500));
    assert_eq!(
        manager.generate_error_page(HttpStatus::InternalServerError, Some("m"), Some("<b>500</b>")),
        "<b>500</b>"
    );
    assert_eq!(
        manager.generate_error_page(HttpStatus::InternalServerError, Some("m"), None),
        ErrorPageManager::generate_default_error_page(HttpStatus::InternalServerError, Some("m"))
    );
    assert_eq!(
        manager.generate_error_page(HttpStatus::Forbidden, None, Some("<b>403</b>")),
        ErrorPageManager::generate_default_error_page(HttpStatus::Forbidden, None)
    );
    assert_eq!(generate_error_page(HttpStatus::NotFound, Some("<b>404</b>")), "<b>404</b>");
    assert_eq!(generate_error_page(HttpStatus::NotFound, None), page);
}

#[test]
fn cgi_decisions() {
    let mut executor = CgiExecutor::new();
    assert_eq!(executor.timeout(), 30000);
    assert_eq!(executor.max_output_size(), 1048576);
    assert_eq!(executor.poll(0, false), CgiStep::Sleep(10));
    assert_eq!(executor.poll(30000, false), CgiStep::Sleep(10));
    assert_eq!(executor.poll(30000, true), CgiStep::Collect);
    assert_eq!(executor.poll(30001, true), CgiStep::Kill);
    executor.set_timeout(5);
    executor.set_max_output_size(4);
    assert_eq!(executor.poll(6, false), CgiStep::Kill);
    assert!(executor.finish(true, b"1234").is_ok());
    assert!(matches!(
        executor.finish(true, b"12345"),
        Err(ServerError::Cgi(CgiFailure::Oversize, _))
    ));
    let failed = executor.finish(false, b"").unwrap();
    assert_eq!(failed.status(), HttpStatus::InternalServerError);
    assert!(String::from_utf8(failed.body().clone()).unwrap().contains("CGI script execution failed"));
    let custom = CgiExecutor::with_settings(2, 10);
    assert_eq!(custom.timeout(), 2000);
    assert_eq!(CgiExecutor::with_settings(u64::MAX, 10).timeout(), u64::MAX);
    assert_eq!(CgiExecutor::extract_path_info("/cgi-bin/a/b", "/cgi-bin"), "a/b");
    assert_eq!(CgiExecutor::extract_path_info("/cgi-bin", "/cgi-bin"), "");
    assert_eq!(CgiExecutor::extract_path_info("/other", "/cgi-bin"), "");
    assert_eq!(CgiExecutor::find_boundary(b"a\n\nb\r\n\r\nc"), Some((6, 8)));
    assert_eq!(CgiExecutor::find_boundary(b"a\n\nb"), Some((1, 3)));
    assert_eq!(CgiExecutor::find_boundary(b"a\r\nb"), None);
    assert!(executor.parse_cgi_output(b"x").is_ok());
    let mut request = HttpRequest::new();
    request.add_header("Authorization", "Basic x");
    request.uri = "/s.py?a=1?b=2".to_string();
    let server = ServerConfig::default();
    match executor.execute(&request, &server, &server.routes[0], "www/s.py") {
        Err(ServerError::Cgi(_, _)) => {}
        _ => panic!("a route without an interpreter gave a command"),
    }
    let mut scripted = ServerConfig::default();
    scripted.routes[0].cgi = Some("sh".to_string());
    let command = executor.execute(&request, &scripted, &scripted.routes[0], "www/s.py").unwrap();
    let env = &command.environment;
    assert_eq!(env.get("QUERY_STRING"), Some(&"a=1?b=2".to_string()));
    assert_eq!(env.get("SERVER_NAME"), Some(&"localhost".to_string()));
    assert_eq!(env.get("SERVER_PORT"), Some(&"80".to_string()));
    assert_eq!(env.get("SERVER_PROTOCOL"), Some(&"HTTP/1.1".to_string()));
    assert_eq!(env.get("HTTP_AUTHORIZATION"), Some(&"Basic x".to_string()));
    assert_eq!(env.get("AUTH_TYPE"), Some(&"Basic".to_string()));
    assert_eq!(env.get("REMOTE_USER"), Some(&"".to_string()));
    assert_eq!(env.get("REMOTE_ADDR"), Some(&"127.0.0.1".to_string()));
    assert_eq!(env.get("PATH_TRANSLATED"), Some(&"www/s.py".to_string()));
    assert_eq!(env.get("CONTENT_LENGTH"), None);
    assert_eq!(env.variables().key_at(0), "GATEWAY_INTERFACE");
}

#[test]
fn buffers() {
    let mut buffer = Buffer::new(4);
    assert!(buffer.is_empty());
    assert_eq!(buffer.writable_bytes(), 4);
    buffer.append(b"abc");
    assert_eq!(buffer.readable_data(), b"abc");
    assert_eq!(buffer.writable_bytes(), 1);
    buffer.consume(1);
    assert_eq!(buffer.readable_data(), b"bc");
    buffer.append(b"de");
    assert_eq!(buffer.readable_data(), b"bcde");
    assert_eq!(buffer.readable_bytes(), 4);
    assert_eq!(buffer.writable_bytes(), 0);
    buffer.append(b"fgh");
    assert_eq!(buffer.readable_data(), b"bcdefgh");
    assert_eq!(buffer.writable_bytes(), 1);
    buffer.ensure_writable_space(100);
    assert_eq!(buffer.writable_bytes(), 100);
    assert_eq!(buffer.as_string(), "bcdefgh");
    buffer.consume(100);
    assert!(buffer.is_empty());
    buffer.advance_write(3);
    assert_eq!(buffer.readable_bytes(), 3);
    buffer.advance_write(usize::MAX);
    assert_eq!(buffer.writable_bytes(), 0);
    buffer.clear();
    assert!(buffer.is_empty());
    let mut room = Buffer::new(8);
    room.append(b"ab");
    {
        let space = room.writable_space();
        assert_eq!(space.len(), 6);
        space[..3].copy_from_slice(b"cde");
    }
    assert_eq!(room.readable_data(), b"ab");
    room.advance_write(3);
    assert_eq!(room.readable_data(), b"abcde");
    assert_eq!(room.writable_bytes(), 3);
    assert_eq!(room.writable_space().len(), 3);
    let mut raw = Buffer::new(0);
    raw.append(&[0xff, b'a']);
    assert_eq!(raw.as_string(), "\u{FFFD}a");
}

#[test]
fn cookies_in_detail() {
    let cookie = Cookie::persistent("id".to_string(), "7".to_string(), 3600)
        .domain("example.org".to_string())
        .path("/app".to_string())
        .expires(784111777)
        .secure(true)
        .http_only(true)
        .same_site(SameSite::Unrestricted);
    assert_eq!(
        cookie.to_header_value(),
        "id=7; Domain=example.org; Path=/app; Expires=Sun, 06 Nov 1994 08:49:37 GMT; Max-Age=3600; Secure; HttpOnly; SameSite=None"
    );
    assert_eq!(Cookie::session("a".to_string(), "b".to_string()).to_header_value(), "a=b");
    assert_eq!(Cookie::new("a".to_string(), "b".to_string()).max_age(5).to_header_value(), "a=b; Max-Age=5");
    assert!(cookie.is_expired());
    assert!(cookie.is_expired_at(784111778));
    assert!(!cookie.is_expired_at(784111777));
    assert!(cookie.is_valid_for_at("www.example.org", "/app/x", 0));
    assert!(!cookie.is_valid_for_at("example.com", "/app/x", 0));
    assert!(!cookie.is_valid_for_at("www.example.org", "/other", 0));
    assert!(!cookie.is_valid_for("www.example.org", "/app/x"));
    let mut jar = CookieJar::new();
    jar.add(cookie.clone());
    jar.add(Cookie::new("z".to_string(), "1".to_string()));
    jar.add(Cookie::new("id".to_string(), "8".to_string()).expires(u64::MAX));
    assert_eq!(jar.len(), 2);
    assert_eq!(jar.cookies()[0].value, "8");
    assert_eq!(jar.to_cookie_header("h", "/"), Some("id=8; z=1".to_string()));
    assert_eq!(jar.to_set_cookie_headers().len(), 2);
    jar.add(Cookie::new("old".to_string(), "x".to_string()).expires(1));
    assert_eq!(jar.to_cookie_header_at("h", "/", 5), Some("id=8; z=1".to_string()));
    jar.clear_expired();
    assert_eq!(jar.len(), 2);
    assert!(jar.get("old").is_none());
    assert_eq!(jar.remove("z").map(|c| c.value), Some("1".to_string()));
    jar.clear_expired_at(u64::MAX);
    assert_eq!(jar.len(), 1);
    jar.clear();
    assert!(jar.is_empty());
    assert_eq!(jar.to_cookie_header("h", "/"), None);
}

#[test]
fn sessions_in_detail() {
    let mut session = Session::with_expiration_at("s".to_string(), 10, 100);
    assert!(!session.is_expired_at(110));
    assert!(session.is_expired_at(111));
    session.set_at("k".to_string(), "v".to_string(), 105);
    assert_eq!(session.idle_time_at(107), 2);
    assert_eq!(session.age_at(107), 7);
    assert_eq!(session.keys(), vec![&"k".to_string()]);
    assert_eq!(session.remove_at("none", 109), None);
    assert_eq!(session.last_accessed, 105);
    session.touch_at(106);
    session.clear_at(108);
    assert_eq!(session.last_accessed, 108);
    let mut config = SessionConfig::default();
    config.max_sessions = 2;
    config.session_timeout = 1000;
    config.cleanup_interval = 50;
    config.cookie_domain = Some("example.org".to_string());
    let mut manager = SessionManager::new_at(config, 0);
    let first = manager.create_session_at(255).unwrap();
    assert_eq!(first, "ff-0");
    let second = manager.create_session_at(256).unwrap();
    assert_eq!(second, "100-1");
    assert!(manager.create_session_at(257).is_err());
    assert_eq!(manager.get_stats_at(1255).unwrap().expired_sessions, 0);
    assert_eq!(manager.get_stats_at(1256).unwrap().expired_sessions, 1);
    assert_eq!(manager.get_stats_at(1256).unwrap().active_sessions, 1);
    assert_eq!(manager.get_stats().unwrap().total_sessions, 2);
    assert_eq!(manager.maybe_cleanup_at(50).unwrap(), 0);
    assert_eq!(manager.maybe_cleanup_at(1256).unwrap(), 1);
    assert!(manager.get_session_at(&first, 1256).unwrap().is_none());
    let got = manager.get_session_at(&second, 1256).unwrap().unwrap();
    assert_eq!(got.last_accessed, 1256);
    assert!(manager.get_session_at(&second, 1257).unwrap().is_none());
    assert_eq!(manager.get_stats().unwrap().total_sessions, 0);
    let mut edited = got.clone();
    edited.set("user".to_string(), "ann".to_string());
    manager.update_session(edited).unwrap();
    let mut jar = CookieJar::new();
    assert!(manager.get_session_from_cookies(&jar).unwrap().is_none());
    jar.add(manager.create_session_cookie_at(&second, 2000));
    assert_eq!(
        jar.get("SESSIONID").unwrap().to_header_value(),
        "SESSIONID=100-1; Domain=example.org; Path=/; Expires=Thu, 01 Jan 1970 00:00:03 GMT; HttpOnly; SameSite=Lax"
    );
    assert_eq!(
        manager.create_destroy_cookie_at(7_200_000).to_header_value(),
        "SESSIONID=; Domain=example.org; Path=/; Expires=Thu, 01 Jan 1970 01:00:00 GMT"
    );
    assert!(manager.get_session_from_cookies_at(&jar, 0).unwrap().is_some());
    assert_eq!(manager.cleanup_expired_sessions_at(u64::MAX).unwrap(), 1);
    assert_eq!(manager.config().max_sessions, 2);
    assert!(manager.create_session_cookie("x").expires.is_some());
    assert!(manager.create_destroy_cookie().is_expired());
}

#[test]
fn timeouts() {
    let mut manager = TimeoutManager::new(30, 60, 2);
    assert!(manager.add_connection_at(1, 0).is_ok());
    assert!(manager.add_connection_at(2, 10).is_ok());
    assert!(manager.is_at_limit());
    assert!(manager.add_connection_at(3, 10).is_err());
    manager.update_state_at(2, localhost_http_server::utils::timeout::ConnectionState::KeepAlive, 10);
    manager.update_activity_at(1, usize::MAX, false, 5);
    manager.update_activity_at(1, 7, false, 5);
    manager.increment_requests_at(1, 5);
    assert_eq!(manager.get_connection(1).unwrap().bytes_written, usize::MAX);
    assert_eq!(manager.get_timed_out_connections_at(35), Vec::<i32>::new());
    assert_eq!(manager.get_timed_out_connections_at(36), vec![1]);
    assert_eq!(manager.get_timed_out_connections_at(70), vec![1]);
    assert_eq!(manager.get_timed_out_connections_at(71), vec![1, 2]);
    assert!(manager.get_timed_out_connections().len() == 2);
    let stats = manager.get_stats_at(100);
    assert_eq!(
        stats,
        TimeoutStats {
            total_connections: 2,
            total_requests: 1,
            total_bytes_read: 0,
            total_bytes_written: usize::MAX,
            max_connection_age: 100,
            max_idle_time: 95,
            max_connections: 2,
            reading_connections: 1,
            processing_connections: 0,
            writing_connections: 0,
            keepalive_connections: 1,
            closing_connections: 0,
        }
    );
    assert_eq!(stats.total_bytes_transferred(), usize::MAX);
    assert_eq!(manager.get_all_connections().len(), 2);
    assert_eq!(manager.cleanup_old_connections_at(95, 100), 1);
    assert_eq!(manager.get_all_connections()[0].fd, 2);
    assert_eq!(manager.cleanup_old_connections(0), 1);
    let info = ConnectionInfo {
        fd: 1,
        created_at: 0,
        last_activity: 10,
        request_count: 0,
        bytes_read: 0,
        bytes_written: 0,
        state: localhost_http_server::utils::timeout::ConnectionState::Writing,
    };
    assert!(!info.is_timed_out(5, 1, 1));
    assert!(info.is_timed_out(12, 1, 100));
    assert_eq!(TimeoutStats::default().max_connections, 0);
}

#[test]
fn registry_is_bounded_and_swept() {
    let mut registry = ConnectionManager::with_limits_at(30, 60, 2, 0);
    assert!(registry.add_connection_at(1, 0).is_ok());
    assert!(registry.add_connection_at(2, 0).is_ok());
    assert!(registry.is_at_limit());
    assert!(registry.add_connection_at(3, 0).is_err());
    assert!(registry.add_connection_at(3, 0).is_err());
    assert_eq!(registry.connection_count(), 2);
    assert_eq!(registry.get_resource_stats().error_count, 2);
    assert_eq!(registry.get_resource_stats().peak_connections, 2);
    assert!(!registry.has_connection(3));
    assert_eq!(registry.get_all_fds(), vec![1, 2]);
    // connection 2 answers a request and waits between requests
    assert_eq!(registry.receive_at(2, b"GET / HTTP/1.1\r\n\r\n", 10), Some(true));
    assert!(matches!(registry.next_request(2), Some(ParseStep::Request(_))));
    let response = HttpResponse::text_at(HttpStatus::Okay, "x", 0);
    assert_eq!(registry.send_response_at(2, response, true, 10), Some(true));
    let pending = registry.get_connection(2).unwrap().pending_output().len();
    assert!(registry.wrote_at(2, pending, 10).is_some());
    assert_eq!(registry.get_connection(2).unwrap().state, ConnectionState::KeepAlive);
    assert!(registry.next_request(2).is_none());
    assert_eq!(registry.get_timed_out_connections_at(30), Vec::<i32>::new());
    assert_eq!(registry.get_timed_out_connections_at(31), vec![1]);
    assert_eq!(registry.cleanup_expired_at(70), vec![1]);
    assert_eq!(registry.get_all_fds(), vec![2]);
    assert_eq!(registry.cleanup_expired_at(70), Vec::<i32>::new());
    assert_eq!(registry.cleanup_expired_at(71), vec![2]);
    assert_eq!(registry.connection_count(), 0);
    assert!(registry.add_connection(5).is_ok());
    registry.record_request(5, 100);
    registry.update_activity(5);
    assert_eq!(registry.get_connection(5).unwrap().request_count, 1);
    assert_eq!(registry.get_resource_stats().total_bytes_transferred, 100);
    assert_eq!(registry.get_timeout_stats().total_connections, 1);
    assert!(registry.remove_connection(5).is_some());
    assert!(registry.remove_connection(5).is_none());
    assert!(registry.cleanup_expired().is_empty());
    assert!(registry.add_connection_at(8, 0).is_ok());
    assert_eq!(registry.cleanup_timed_out_at(31), vec![8]);
    assert!(registry.cleanup_timed_out().is_empty());
    assert!(registry.get_timed_out_connections().is_empty());
    assert_eq!(registry.receive_at(9, b"x", 0), None);
    assert_eq!(registry.wrote_at(9, 1, 0), None);
}

#[test]
fn connection_life_cycle() {
    let mut connection = Connection::new_at(4, 100);
    assert_eq!(connection.state, ConnectionState::Reading);
    assert!(!connection.is_timed_out_at(50, 150));
    assert!(connection.is_timed_out_at(50, 151));
    assert!(connection.is_timed_out(60_000));
    assert!(!Connection::new(4).is_timed_out(60_000));
    assert!(connection.should_close());
    assert!(connection.receive_at(b"GET / HTTP/1.1\r\nConnection: close\r\n\r\n", 101));
    let request = match connection.next_request() {
        ParseStep::Request(request) => request,
        _ => panic!("the request was not complete"),
    };
    assert!(!request.keep_alive());
    assert!(connection.send_response_at(HttpResponse::text_at(HttpStatus::Okay, "x", 0), false, 102));
    assert_eq!(connection.state, ConnectionState::Writing);
    assert!(!connection.should_close());
    let n = connection.pending_output().len();
    connection.wrote_at(n, 103);
    assert_eq!(connection.state, ConnectionState::Closed);
    assert!(connection.should_close());
    assert_eq!(connection.bytes_written, n);
    assert_eq!(connection.info().state, localhost_http_server::utils::timeout::ConnectionState::Closing);
    let mut other = Connection::new(5);
    other.touch();
    other.touch_at(7);
    assert_eq!(other.last_activity, 7);
    other.reset_for_keep_alive();
    assert_eq!(other.state, ConnectionState::KeepAlive);
    assert!(other.receive_at(b"G", 8));
    assert_eq!(other.state, ConnectionState::Reading);
    assert!(matches!(other.next_request(), ParseStep::NeedMore));
    other.close();
    assert_eq!(other.state, ConnectionState::Closed);
}

#[test]
fn event_masks() {
    assert_eq!(events_for(Interest::Readable), 0x001);
    assert_eq!(events_for(Interest::Writable), 0x004);
    assert_eq!(
        readiness_of(0),
        Readiness { readable: false, writable: false, error: false, hangup: false }
    );
    assert_eq!(
        readiness_of(events_for(Interest::Readable)),
        Readiness { readable: true, writable: false, error: false, hangup: false }
    );
    assert_eq!(
        readiness_of(events_for(Interest::Writable)),
        Readiness { readable: false, writable: true, error: false, hangup: false }
    );
    assert_eq!(
        readiness_of(0x008),
        Readiness { readable: false, writable: false, error: true, hangup: false }
    );
    assert_eq!(
        readiness_of(0x010 | 0x001),
        Readiness { readable: true, writable: false, error: false, hangup: true }
    );
    assert_eq!(
        readiness_of(0x2000 | 0x002),
        Readiness { readable: false, writable: false, error: false, hangup: false }
    );
    let server = Server::new(Config { servers: vec![] });
    assert_eq!(server.handle_event(5, readiness_of(0x008 | 0x001)), EventStep::Teardown);
    assert_eq!(
        server.handle_event(5, readiness_of(0x004 | 0x001)),
        EventStep::Transfer { read: true, write: true }
    );
}

#[test]
fn headers_from_pairs() {
    let headers = Headers::from(vec![
        ("Host".to_string(), "a".to_string()),
        ("Accept".to_string(), "*/*".to_string()),
        ("HOST".to_string(), "b".to_string()),
    ]);
    assert_eq!(headers.len(), 2);
    assert_eq!(headers.get("host"), Some(&"b".to_string()));
    assert_eq!(headers.get("ACCEPT"), Some(&"*/*".to_string()));
    let listed: Vec<(String, String)> =
        headers.iter().into_iter().map(|(k, v)| (k.clone(), v.clone())).collect();
    assert_eq!(
        listed,
        vec![("host".to_string(), "b".to_string()), ("accept".to_string(), "*/*".to_string())]
    );
    assert!(Headers::from(Vec::new()).is_empty());
}

#[test]
fn counters_follow_the_events() {
    let mut server = Server::new(Config::default());
    let start = server.get_stats().1;
    assert_eq!(
        (start.peak_connections, start.total_requests_served, start.error_count),
        (0, 0, 0)
    );
    assert!(server.accept_at(7, 10));
    assert!(server.accept_at(8, 10));
    assert_eq!(server.get_stats().1.peak_connections, 2);
    assert!(server.teardown(8));
    assert_eq!(server.get_stats().1.peak_connections, 2);
    assert_eq!(server.get_stats().1.error_count, 0);
    // a request under way and a request that is complete count nothing
    assert!(matches!(server.handle_read_at(7, b"GET / HT", 11), ReadStep::Wait));
    assert!(matches!(server.handle_read_at(7, b"TP/1.1\r\n\r\n", 12), ReadStep::Handle(_)));
    assert_eq!(server.get_stats().1.error_count, 0);
    let response = HttpResponse::text_at(HttpStatus::Okay, "ok", 0);
    let size = response.to_bytes().len();
    server.record_request(7, size);
    assert!(server.send_response_at(7, response, true, 13).is_some());
    let sent = server.pending_output(7).unwrap().len();
    assert_eq!(server.handle_write_at(7, sent, 14), Some(WriteStep::Await));
    let after = server.get_stats().1;
    assert_eq!((after.total_requests_served, after.total_bytes_transferred), (1, size));
    assert_eq!(after.error_count, 0);
    // bytes that are no request count as one error
    assert!(matches!(server.handle_read_at(7, b"GET relative HTTP/1.1\r\n\r\n", 15), ReadStep::Reject));
    assert_eq!(server.get_stats().1.error_count, 1);
    assert!(server.reject_at(7, None, 16).is_some());
    assert_eq!(server.get_stats().1.error_count, 1);
    assert!(server.cleanup_timed_out_connections_at(17).is_empty());
    assert_eq!(server.get_stats().1.error_count, 1);
    assert_eq!(server.get_stats().1.peak_connections, 2);
}
