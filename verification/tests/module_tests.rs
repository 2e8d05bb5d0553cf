//! Tests of single modules.
use localhost_http_server::cgi::environment::CgiEnvironment;
use localhost_http_server::config::types::{Config, RouteConfig, ServerConfig};
use localhost_http_server::http::request::{HttpMethod, HttpRequest, HttpVersion};
use localhost_http_server::routing::router::Router;
use localhost_http_server::session::cookie::{Cookie, CookieJar};
use localhost_http_server::utils::mime::MimeDetector;
use localhost_http_server::utils::timeout::{ResourceMonitor, TimeoutManager};

#[test]
fn test_cgi_environment_creation() {
    let mut request = HttpRequest::new();
    request.method = HttpMethod::GET;
    request.version = HttpVersion::Http11;
    request.uri = "/cgi-bin/test.py?param=value".to_string();
    request.path = "/cgi-bin/test.py".to_string();

    let server_config = ServerConfig::default();
    let env = CgiEnvironment::from_request(&request, &server_config, "/cgi-bin/test.py", "");

    assert_eq!(env.get("REQUEST_METHOD"), Some(&"GET".to_string()));
    assert_eq!(env.get("QUERY_STRING"), Some(&"param=value".to_string()));
    assert_eq!(env.get("SCRIPT_NAME"), Some(&"/cgi-bin/test.py".to_string()));
    assert!(env.validate().is_ok());
}

#[test]
fn test_environment_validation() {
    let mut env = CgiEnvironment::new();
    assert!(env.validate().is_err());

    env.set("GATEWAY_INTERFACE", "CGI/1.1");
    env.set("SERVER_SOFTWARE", "test");
    env.set("SERVER_PROTOCOL", "HTTP/1.1");
    env.set("REQUEST_METHOD", "GET");
    env.set("SCRIPT_NAME", "/test.py");

    assert!(env.validate().is_ok());
}

fn create_test_config() -> Config {
    Config {
        servers: vec![ServerConfig {
            host: "127.0.0.1".to_string(),
            ports: vec![8080],
            server_name: Some("localhost".to_string()),
            error_pages: std::collections::HashMap::new(),
            max_body_size: 1024 * 1024,
            routes: vec![
                RouteConfig {
                    path: "/".to_string(),
                    methods: vec!["GET".to_string()],
                    redirect: None,
                    root: Some("www".to_string()),
                    index: Some("index.html".to_string()),
                    cgi: None,
                    directory_listing: false,
                    upload_enabled: false,
                },
                RouteConfig {
                    path: "/api/".to_string(),
                    methods: vec!["GET".to_string(), "POST".to_string()],
                    redirect: None,
                    root: None,
                    index: None,
                    cgi: Some("python3".to_string()),
                    directory_listing: false,
                    upload_enabled: false,
                },
            ],
        }],
    }
}

#[test]
fn test_route_matching() {
    let config = create_test_config();
    let router = Router::new(&config);

    let (_, route) = router.find_route(Some("localhost"), "/").unwrap();
    assert_eq!(route.path, "/");

    let (_, route) = router.find_route(Some("localhost"), "/api/test").unwrap();
    assert_eq!(route.path, "/api/");

    let (_, route) = router.find_route(Some("localhost"), "/index.html").unwrap();
    assert_eq!(route.path, "/");
}

#[test]
fn cookie_test_cookie_creation() {
    let cookie = Cookie::new("session_id".to_string(), "abc123".to_string());
    assert_eq!(cookie.name, "session_id");
    assert_eq!(cookie.value, "abc123");
    assert!(!cookie.secure);
    assert!(!cookie.http_only);
}

#[test]
fn test_cookie_header_value() {
    let cookie = Cookie::new("test".to_string(), "value".to_string())
        .path("/".to_string())
        .http_only(true)
        .secure(true);

    let header = cookie.to_header_value();
    assert!(header.contains("test=value"));
    assert!(header.contains("Path=/"));
    assert!(header.contains("HttpOnly"));
    assert!(header.contains("Secure"));
}

#[test]
fn cookie_test_cookie_jar() {
    let mut jar = CookieJar::new();
    let cookie = Cookie::new("test".to_string(), "value".to_string());

    jar.add(cookie);
    assert_eq!(jar.len(), 1);
    assert!(jar.get("test").is_some());
    assert!(jar.get("nonexistent").is_none());
}

#[test]
fn test_cookie_parsing() {
    let mut jar = CookieJar::new();
    jar.parse_cookie_header("session_id=abc123; user_pref=dark_mode");

    assert_eq!(jar.len(), 2);
    assert_eq!(jar.get("session_id").unwrap().value, "abc123");
    assert_eq!(jar.get("user_pref").unwrap().value, "dark_mode");
}

#[test]
fn test_mime_detection() {
    let detector = MimeDetector::new();

    assert_eq!(detector.detect_from_filename("test.html"), "text/html; charset=utf-8");
    assert_eq!(detector.detect_from_filename("style.css"), "text/css; charset=utf-8");
    assert_eq!(
        detector.detect_from_filename("script.js"),
        "application/javascript; charset=utf-8"
    );
    assert_eq!(detector.detect_from_filename("image.png"), "image/png");
    assert_eq!(detector.detect_from_filename("document.pdf"), "application/pdf");

    assert_eq!(detector.detect_from_filename("TEST.HTML"), "text/html; charset=utf-8");
    assert_eq!(detector.detect_from_filename("Image.PNG"), "image/png");

    assert_eq!(detector.detect_from_filename("unknown.xyz"), "application/octet-stream");

    assert_eq!(detector.detect_from_filename("noextension"), "application/octet-stream");
}

#[test]
fn test_path_detection() {
    let detector = MimeDetector::new();
    let path = String::from("/var/www/test.html");

    assert_eq!(detector.detect_from_path(&path), "text/html; charset=utf-8");
}

#[test]
fn test_type_checking() {
    let detector = MimeDetector::new();

    assert!(detector.is_text_type("text/html"));
    assert!(detector.is_text_type("application/json"));
    assert!(!detector.is_text_type("image/png"));

    assert!(detector.is_image_type("image/png"));
    assert!(detector.is_image_type("image/jpeg"));
    assert!(!detector.is_image_type("text/html"));

    assert!(detector.is_compressible("text/html"));
    assert!(detector.is_compressible("application/json"));
    assert!(!detector.is_compressible("image/png"));
}

#[test]
fn timeout_test_timeout_manager() {
    let mut manager = TimeoutManager::with_defaults();

    assert!(manager.add_connection(1).is_ok());
    assert_eq!(manager.connection_count(), 1);

    manager.update_activity(1, 100, true);
    let info = manager.get_connection(1).unwrap();
    assert_eq!(info.bytes_read, 100);

    assert!(manager.remove_connection(1).is_some());
    assert_eq!(manager.connection_count(), 0);
}

#[test]
fn timeout_test_resource_monitor() {
    let mut monitor = ResourceMonitor::new();

    monitor.record_request(1024);
    monitor.record_error();
    monitor.update_peak_connections(5);

    let stats = monitor.get_stats();
    assert_eq!(stats.total_requests_served, 1);
    assert_eq!(stats.total_bytes_transferred, 1024);
    assert_eq!(stats.error_count, 1);
    assert_eq!(stats.peak_connections, 5);
}

#[test]
fn test_session_creation() {
    let session = localhost_http_server::session::manager::Session::new("test_id".to_string());
    assert_eq!(session.id, "test_id");
    assert!(session.data.is_empty());
    assert!(!session.is_expired());
}

#[test]
fn test_session_data_operations() {
    let mut session = localhost_http_server::session::manager::Session::new("test".to_string());

    session.set("key1".to_string(), "value1".to_string());
    assert_eq!(session.get("key1"), Some(&"value1".to_string()));
    assert!(session.contains_key("key1"));

    session.remove("key1");
    assert!(!session.contains_key("key1"));
}

#[test]
fn manager_test_session_manager() {
    let mut manager = localhost_http_server::session::manager::SessionManager::with_defaults();

    let session_id = manager.create_session().unwrap();
    assert!(!session_id.is_empty());

    let session = manager.get_session(&session_id).unwrap();
    assert!(session.is_some());

    let destroyed = manager.destroy_session(&session_id).unwrap();
    assert!(destroyed);

    let session = manager.get_session(&session_id).unwrap();
    assert!(session.is_none());
}
