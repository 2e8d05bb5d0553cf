//! Unit tests for the HTTP server components.
use localhost_http_server::cgi::environment::CgiEnvironment;
use localhost_http_server::config::types::ServerConfig;
use localhost_http_server::error::HttpStatus;
use localhost_http_server::http::request::{HttpMethod, HttpRequest, HttpRequestParser, HttpVersion};
use localhost_http_server::http::response::HttpResponse;
use localhost_http_server::session::cookie::{Cookie, CookieJar, SameSite};
use localhost_http_server::utils::timeout::{
    ConnectionState, ResourceMonitor, ResourceStats, TimeoutManager, TimeoutStats,
};

#[test]
fn test_http_request_parsing() {
    let request_data =
        b"GET /test?param=value HTTP/1.1\r\nHost: localhost\r\nUser-Agent: test\r\n\r\n";

    let mut parser = HttpRequestParser::new();
    let (request, consumed) = parser.parse(request_data).expect("Failed to parse request");
    let request = request.expect("Request not complete");

    assert_eq!(consumed, request_data.len());
    assert_eq!(request.method, HttpMethod::GET);
    assert_eq!(request.path, "/test");
    assert_eq!(request.uri, "/test?param=value");
    assert_eq!(request.version, HttpVersion::Http11);
    assert_eq!(request.get_header("host"), Some(&"localhost".to_string()));
    assert_eq!(request.get_header("user-agent"), Some(&"test".to_string()));
    assert_eq!(request.query_params.get("param"), Some(&"value".to_string()));
}

#[test]
fn test_http_response_generation() {
    let mut response = HttpResponse::new(HttpStatus::Okay);
    response.set_content_type("text/html");
    response.set_body_string("Hello, World!".to_string());

    let response_bytes = response.to_bytes();
    let response_str = String::from_utf8_lossy(&response_bytes);

    assert!(response_str.contains("HTTP/1.1 200 OK"));
    assert!(response_str.contains("Content-Type: text/html"));
    assert!(response_str.contains("Content-Length: 13"));
    assert!(response_str.contains("Hello, World!"));
}

#[test]
fn test_http_status_codes() {
    assert_eq!(HttpStatus::Okay.as_u16(), 200);
    assert_eq!(HttpStatus::NotFound.as_u16(), 404);
    assert_eq!(HttpStatus::InternalServerError.as_u16(), 500);

    assert_eq!(HttpStatus::Okay.reason_phrase(), "OK");
    assert_eq!(HttpStatus::NotFound.reason_phrase(), "Not Found");
    assert_eq!(HttpStatus::InternalServerError.reason_phrase(), "Internal Server Error");
}

#[test]
fn test_http_methods() {
    assert_eq!(HttpMethod::GET.as_str(), "GET");
    assert_eq!(HttpMethod::POST.as_str(), "POST");
    assert_eq!(HttpMethod::DELETE.as_str(), "DELETE");

    assert_eq!(HttpMethod::from_str("GET"), Some(HttpMethod::GET));
    assert_eq!(HttpMethod::from_str("POST"), Some(HttpMethod::POST));
    assert!(HttpMethod::from_str("INVALID").is_none());
}

#[test]
fn test_malformed_request() {
    let malformed_data = b"INVALID REQUEST FORMAT\r\n\r\n";

    let mut parser = HttpRequestParser::new();
    assert!(parser.parse(malformed_data).is_err());
}

#[test]
fn test_post_request_with_body() {
    let request_data =
        b"POST /submit HTTP/1.1\r\nHost: localhost\r\nContent-Length: 13\r\n\r\nHello, World!";

    let mut parser = HttpRequestParser::new();
    let (request, _) = parser.parse(request_data).expect("Failed to parse request");
    let request = request.expect("Request not complete");

    assert_eq!(request.method, HttpMethod::POST);
    assert_eq!(request.path, "/submit");
    assert_eq!(request.body, b"Hello, World!");
}

#[test]
fn unit_tests_test_cookie_creation() {
    let cookie = Cookie::new("test".to_string(), "value".to_string())
        .path("/".to_string())
        .http_only(true)
        .secure(true)
        .same_site(SameSite::Lax);

    let header_value = cookie.to_header_value();
    assert!(header_value.contains("test=value"));
    assert!(header_value.contains("Path=/"));
    assert!(header_value.contains("HttpOnly"));
    assert!(header_value.contains("Secure"));
    assert!(header_value.contains("SameSite=Lax"));
}

#[test]
fn unit_tests_test_cookie_jar() {
    let mut jar = CookieJar::new();

    jar.add(Cookie::new("session".to_string(), "abc123".to_string()));
    jar.add(Cookie::new("user".to_string(), "john".to_string()));

    assert_eq!(jar.len(), 2);
    assert_eq!(jar.get("session").unwrap().value, "abc123");
    assert_eq!(jar.get("user").unwrap().value, "john");

    jar.parse_cookie_header("theme=dark; lang=en");
    assert_eq!(jar.len(), 4);
    assert_eq!(jar.get("theme").unwrap().value, "dark");
    assert_eq!(jar.get("lang").unwrap().value, "en");
}

#[test]
fn test_cgi_environment() {
    let mut request = HttpRequest::new();
    request.method = HttpMethod::GET;
    request.uri = "/cgi-bin/test.py?param=value".to_string();
    request.path = "/cgi-bin/test.py".to_string();
    request.add_header("user-agent", "test-agent");
    request.add_header("host", "localhost:8080");

    let server_config = ServerConfig::default();
    let env = CgiEnvironment::from_request(&request, &server_config, "/cgi-bin/test.py", "");

    assert_eq!(env.get("REQUEST_METHOD"), Some(&"GET".to_string()));
    assert_eq!(env.get("SCRIPT_NAME"), Some(&"/cgi-bin/test.py".to_string()));
    assert_eq!(env.get("QUERY_STRING"), Some(&"param=value".to_string()));
    assert_eq!(
        env.get("SERVER_SOFTWARE"),
        Some(&"localhost-http-server/0.1.0".to_string())
    );
    assert_eq!(env.get("GATEWAY_INTERFACE"), Some(&"CGI/1.1".to_string()));

    assert_eq!(env.get("HTTP_USER_AGENT"), Some(&"test-agent".to_string()));
    assert_eq!(env.get("HTTP_HOST"), Some(&"localhost:8080".to_string()));

    assert!(env.validate().is_ok());
}

#[test]
fn test_cgi_environment_post() {
    let mut request = HttpRequest::new();
    request.method = HttpMethod::POST;
    request.uri = "/cgi-bin/form.py".to_string();
    request.path = "/cgi-bin/form.py".to_string();
    request.body = b"name=John&email=john@example.com".to_vec();
    request.add_header("content-type", "application/x-www-form-urlencoded");
    request.add_header("content-length", "30");

    let server_config = ServerConfig::default();
    let env = CgiEnvironment::from_request(&request, &server_config, "/cgi-bin/form.py", "");

    assert_eq!(env.get("REQUEST_METHOD"), Some(&"POST".to_string()));
    assert_eq!(
        env.get("CONTENT_TYPE"),
        Some(&"application/x-www-form-urlencoded".to_string())
    );
    // The header passes through as sent; the variable gives the length of
    // the body itself, which is 32 bytes.
    assert_eq!(env.get("HTTP_CONTENT_LENGTH"), Some(&"30".to_string()));
    assert_eq!(env.get("CONTENT_LENGTH"), Some(&request.body.len().to_string()));
    assert_eq!(env.get("CONTENT_LENGTH"), Some(&"32".to_string()));
}

#[test]
fn test_cgi_environment_validation() {
    let mut env = CgiEnvironment::new();

    assert!(env.validate().is_err());

    env.set("GATEWAY_INTERFACE", "CGI/1.1");
    env.set("SERVER_SOFTWARE", "test");
    env.set("SERVER_PROTOCOL", "HTTP/1.1");
    env.set("REQUEST_METHOD", "GET");
    env.set("SCRIPT_NAME", "/test.py");

    assert!(env.validate().is_ok());
}

#[test]
fn unit_tests_test_timeout_manager() {
    let mut manager = TimeoutManager::with_defaults();

    assert!(manager.add_connection(1).is_ok());
    assert_eq!(manager.connection_count(), 1);

    manager.update_activity(1, 100, true);
    let info = manager.get_connection(1).unwrap();
    assert_eq!(info.bytes_read, 100);
    assert_eq!(info.bytes_written, 0);

    manager.update_state(1, ConnectionState::Processing);
    let info = manager.get_connection(1).unwrap();
    assert_eq!(info.state, ConnectionState::Processing);

    assert!(manager.remove_connection(1).is_some());
    assert_eq!(manager.connection_count(), 0);
}

fn error_rate_percent(stats: &ResourceStats) -> f64 {
    if stats.total_requests_served == 0 {
        0.0
    } else {
        (stats.error_count as f64 / stats.total_requests_served as f64) * 100.0
    }
}

fn per_second(count: usize, stats: &ResourceStats) -> f64 {
    let uptime_secs = stats.uptime as f64 / 1000.0;
    if uptime_secs > 0.0 {
        count as f64 / uptime_secs
    } else {
        0.0
    }
}

fn utilization_percent(stats: &TimeoutStats) -> f64 {
    if stats.max_connections == 0 {
        0.0
    } else {
        (stats.total_connections as f64 / stats.max_connections as f64) * 100.0
    }
}

fn avg_requests_per_connection(stats: &TimeoutStats) -> f64 {
    if stats.total_connections == 0 {
        0.0
    } else {
        stats.total_requests as f64 / stats.total_connections as f64
    }
}

#[test]
fn unit_tests_test_resource_monitor() {
    let mut monitor = ResourceMonitor::new();

    monitor.record_request(1024);
    monitor.record_request(2048);
    monitor.record_error();
    monitor.update_peak_connections(5);

    let mut stats = monitor.get_stats();
    assert_eq!(stats.total_requests_served, 2);
    assert_eq!(stats.total_bytes_transferred, 3072);
    assert_eq!(stats.error_count, 1);
    assert_eq!(stats.peak_connections, 5);

    // The uptime is counted in milliseconds: look again until one has passed.
    while stats.uptime == 0 {
        stats = monitor.get_stats();
    }
    assert_eq!(error_rate_percent(&stats), 50.0);
    assert!(per_second(stats.total_requests_served, &stats) > 0.0);
    assert!(per_second(stats.total_bytes_transferred, &stats) > 0.0);
}

#[test]
fn test_timeout_stats() {
    let manager = TimeoutManager::with_defaults();
    let stats = manager.get_stats();

    assert_eq!(stats.total_connections, 0);
    assert_eq!(stats.total_requests, 0);
    assert_eq!(utilization_percent(&stats), 0.0);
    assert_eq!(avg_requests_per_connection(&stats), 0.0);
}

#[test]
fn unit_tests_test_session_manager() {
    let mut manager = localhost_http_server::session::manager::SessionManager::with_defaults();

    let session_id = manager.create_session().expect("Failed to create session");
    assert!(!session_id.is_empty());

    let session = manager.get_session(&session_id).expect("Failed to get session");
    assert!(session.is_some());

    let session = session.unwrap();
    assert_eq!(session.id, session_id);
    assert!(session.data.is_empty());
    assert!(!session.is_expired());

    let destroyed = manager.destroy_session(&session_id).expect("Failed to destroy session");
    assert!(destroyed);

    let session = manager.get_session(&session_id).expect("Failed to get session");
    assert!(session.is_none());
}

#[test]
fn test_session_data() {
    let mut session = localhost_http_server::session::manager::Session::new("test_id".to_string());

    session.set("key1".to_string(), "value1".to_string());
    session.set("key2".to_string(), "value2".to_string());

    assert_eq!(session.get("key1"), Some(&"value1".to_string()));
    assert_eq!(session.get("key2"), Some(&"value2".to_string()));
    assert_eq!(session.get("nonexistent"), None);

    let removed = session.remove("key1");
    assert_eq!(removed, Some("value1".to_string()));
    assert_eq!(session.get("key1"), None);

    session.clear();
    assert!(session.data.is_empty());
}

#[test]
fn test_config_text() {
    let config_content = r#"
server {
    server_name localhost
    port 8080
    max_body_size 1048576
    
    route / {
        methods GET POST
        root www
        index index.html
        directory_listing on
    }
    
    route /api {
        methods GET POST PUT DELETE
        root api
        directory_listing off
    }
}
"#;

    let config = localhost_http_server::config::parser::parse_config(config_content)
        .expect("Failed to parse config");

    assert_eq!(config.servers.len(), 1);

    let server = &config.servers[0];
    assert_eq!(server.server_name, Some("localhost".to_string()));
    assert_eq!(server.ports, vec![8080]);
    assert_eq!(server.max_body_size, 1048576);
    assert_eq!(server.routes.len(), 2);

    let route1 = &server.routes[0];
    assert_eq!(route1.path, "/");
    assert_eq!(route1.methods, vec!["GET", "POST"]);
    assert_eq!(route1.root, Some("www".to_string()));
    assert_eq!(route1.index, Some("index.html".to_string()));
    assert_eq!(route1.directory_listing, true);

    let route2 = &server.routes[1];
    assert_eq!(route2.path, "/api");
    assert_eq!(route2.methods, vec!["GET", "POST", "PUT", "DELETE"]);
    assert_eq!(route2.root, Some("api".to_string()));
    assert_eq!(route2.directory_listing, false);
}

#[test]
fn test_invalid_config() {
    let invalid_config = r#"
invalid syntax here
server {
    missing closing brace
"#;

    assert!(localhost_http_server::config::parser::parse_config(invalid_config).is_err());
}

#[test]
fn test_session_expiration() {
    let session = localhost_http_server::session::manager::Session::with_expiration(
        "test".to_string(),
        1,
    );

    // Should not be expired immediately
    assert!(!session.is_expired());

    // Wait for expiration
    let start = localhost_http_server::utils::clock::now_millis();
    while localhost_http_server::utils::clock::now_millis() < start + 10 {}
    assert!(session.is_expired());
}
