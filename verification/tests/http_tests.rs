use sneaky_mouse::config::{HTTP_REQUEST_SIZE_MAX, HTTP_STATUS_METHOD_NOT_ALLOWED, HTTP_STATUS_NOT_FOUND, HTTP_STATUS_OK};
use sneaky_mouse::http_server::{answer, encode_response, keep_reading, parse_request, take_request_line, Request, Response};

fn request(method: &str, path: &str) -> Request {
    Request { method: String::from(method), path: String::from(path) }
}

#[test]
fn parse_request_reads_method_and_path() {
    let r = parse_request(b"POST /shutdown HTTP/1.1\r\n").unwrap();
    assert_eq!((r.method.as_str(), r.path.as_str()), ("POST", "/shutdown"));
    let r = parse_request(b"GET /index\n").unwrap();
    assert_eq!((r.method.as_str(), r.path.as_str()), ("GET", "/index"));
    let r = parse_request(b"GET  x").unwrap();
    assert_eq!((r.method.as_str(), r.path.as_str()), ("GET", ""));
}

#[test]
fn parse_request_refuses_bad_lines() {
    assert!(parse_request(b"GARBAGE\r\n").is_err());
    assert!(parse_request(b"").is_err());
    assert!(parse_request(b"GET \xff\xfe /").is_err());
}

#[test]
fn shutdown_is_the_only_accepted_request() {
    let (resp, shutdown) = answer(&request("POST", "/shutdown"));
    assert_eq!((resp.status, shutdown), (HTTP_STATUS_OK, true));
    let (resp, shutdown) = answer(&request("POST", "/other"));
    assert_eq!((resp.status, shutdown), (HTTP_STATUS_NOT_FOUND, false));
    let (resp, shutdown) = answer(&request("GET", "/shutdown"));
    assert_eq!((resp.status, shutdown), (HTTP_STATUS_METHOD_NOT_ALLOWED, false));
    assert_eq!(HTTP_STATUS_METHOD_NOT_ALLOWED, "405 Method Not Allowed");
}

#[test]
fn encode_response_writes_the_status_line() {
    let mut stack = b"x".to_vec();
    let out = encode_response(&mut stack, Response { status: HTTP_STATUS_NOT_FOUND });
    assert_eq!(out, b"HTTP/1.0 404 Not Found\r\n\r\n".to_vec());
    assert_eq!(stack, b"xHTTP/1.0 404 Not Found\r\n\r\n".to_vec());
}

#[test]
fn request_line_stops_at_the_newline() {
    let mut mem = Vec::new();
    let (total, got) = take_request_line(&mut mem, b"GET / HTTP/1.0\nHost: x\n", 0);
    assert_eq!((total, got), (15, true));
    assert_eq!(mem, b"GET / HTTP/1.0\n".to_vec());
    let mut mem = b"GE".to_vec();
    let (total, got) = take_request_line(&mut mem, b"T /", 2);
    assert_eq!((total, got), (5, false));
    assert_eq!(mem, b"GET /".to_vec());
}

#[test]
fn reading_stops_at_newline_or_cap() {
    assert!(keep_reading(false, 0));
    assert!(!keep_reading(true, 0));
    assert!(!keep_reading(false, HTTP_REQUEST_SIZE_MAX));
    assert!(keep_reading(false, HTTP_REQUEST_SIZE_MAX - 1));
}
