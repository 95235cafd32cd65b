use php_sapi::PhpResponse;
use php_sapi::PhpSapi;

#[test]
fn test_php_sapi_creation() {
    let sapi = PhpSapi::new();
    assert!(!sapi.is_available());
    assert_eq!(sapi.request_count(), 0);
}

#[test]
fn test_php_response_parsing() {
    let raw = b"Content-Type: text/html\r\nStatus: 200 OK\r\n\r\n<html>Hello</html>";
    let response = PhpResponse::from_raw_output(raw);

    assert_eq!(response.status_code, 200);
    assert_eq!(response.body, b"<html>Hello</html>");
    assert_eq!(response.headers.get("Content-Type"), Some(&"text/html".to_string()));
}

#[test]
fn test_php_response_no_headers() {
    let raw = b"Hello World";
    let response = PhpResponse::from_raw_output(raw);

    assert_eq!(response.status_code, 200);
    assert_eq!(response.body, b"Hello World");
    assert!(response.headers.is_empty());
}

#[test]
fn test_php_response_404() {
    let raw = b"Status: 404 Not Found\r\nContent-Type: text/html\r\n\r\nNot Found";
    let response = PhpResponse::from_raw_output(raw);

    assert_eq!(response.status_code, 404);
}
