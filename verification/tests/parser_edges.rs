use php_sapi::PhpResponse;

#[test]
fn empty_output_is_empty_body() {
    let response = PhpResponse::from_raw_output(b"");
    assert_eq!(response.status_code, 200);
    assert!(response.body.is_empty());
    assert!(response.headers.is_empty());
}

#[test]
fn malformed_status_defaults_to_200() {
    let raw = b"Status: abc Not A Number\r\n\r\nbody";
    let response = PhpResponse::from_raw_output(raw);
    assert_eq!(response.status_code, 200);
    assert_eq!(response.body, b"body");
}

#[test]
fn status_token_with_plus_sign_parses() {
    let raw = b"Status: +301 Moved\r\n\r\n";
    let response = PhpResponse::from_raw_output(raw);
    assert_eq!(response.status_code, 301);
}

#[test]
fn status_out_of_range_defaults_to_200() {
    let raw = b"Status: 99999 Nope\r\n\r\n";
    let response = PhpResponse::from_raw_output(raw);
    assert_eq!(response.status_code, 200);
}

#[test]
fn status_at_the_field_bound_parses_and_one_past_does_not() {
    let at_bound = PhpResponse::from_raw_output(b"Status: 65535\r\n\r\n");
    assert_eq!(at_bound.status_code, 65535);
    let past_bound = PhpResponse::from_raw_output(b"Status: 65536\r\n\r\n");
    assert_eq!(past_bound.status_code, 200);
}

#[test]
fn status_prefix_is_case_sensitive() {
    // A lower-case `status:` line is an ordinary header, not a status.
    let response = PhpResponse::from_raw_output(b"status: 404 Not Found\r\n\r\n");
    assert_eq!(response.status_code, 200);
    assert_eq!(response.headers.len(), 1);
}

#[test]
fn status_line_without_token_changes_nothing() {
    let raw = b"Status: 404 Not Found\r\nStatus:\r\n\r\n";
    let response = PhpResponse::from_raw_output(raw);
    assert_eq!(response.status_code, 404);
}

#[test]
fn status_line_is_not_a_header() {
    let raw = b"Status: 404 Not Found\r\n\r\n";
    let response = PhpResponse::from_raw_output(raw);
    assert!(response.headers.is_empty());
}

#[test]
fn duplicate_header_last_write_wins() {
    let raw = b"X-Tag: first\r\nX-Tag: second\r\n\r\nok";
    let response = PhpResponse::from_raw_output(raw);
    assert_eq!(response.headers.len(), 1);
    assert_eq!(response.headers.get("X-Tag"), Some(&"second".to_string()));
}

#[test]
fn header_lookup_is_case_insensitive() {
    let raw = b"Content-Type: text/plain\r\n\r\n";
    let response = PhpResponse::from_raw_output(raw);
    assert_eq!(response.headers.get("content-type"), Some(&"text/plain".to_string()));
    assert_eq!(response.headers.get("CONTENT-TYPE"), Some(&"text/plain".to_string()));
    assert_eq!(response.headers.get("content-typo"), None);
}

#[test]
fn header_name_and_value_are_trimmed() {
    let raw = b"  Spaced  :   padded value \r\n\r\n";
    let response = PhpResponse::from_raw_output(raw);
    assert_eq!(response.headers.get("Spaced"), Some(&"padded value".to_string()));
}

#[test]
fn line_without_colon_is_ignored() {
    let raw = b"this line has no colon\r\nReal: yes\r\n\r\nbody";
    let response = PhpResponse::from_raw_output(raw);
    assert_eq!(response.headers.len(), 1);
    assert_eq!(response.headers.get("Real"), Some(&"yes".to_string()));
    assert_eq!(response.body, b"body");
}

#[test]
fn separator_at_start_means_everything_after_is_body() {
    let raw = b"\r\n\r\nall of this is body\r\nincluding: this";
    let response = PhpResponse::from_raw_output(raw);
    assert_eq!(response.status_code, 200);
    assert!(response.headers.is_empty());
    assert_eq!(response.body, b"all of this is body\r\nincluding: this");
}

#[test]
fn body_bytes_are_kept_verbatim() {
    let raw = b"A: b\r\n\r\n\x00\x01\xff binary \r\n\r\n bytes";
    let response = PhpResponse::from_raw_output(raw);
    assert_eq!(response.body, b"\x00\x01\xff binary \r\n\r\n bytes");
}

#[test]
fn output_without_separator_is_body_even_with_colons() {
    let raw = b"Content-Type: text/html\nno separator here";
    let response = PhpResponse::from_raw_output(raw);
    assert_eq!(response.status_code, 200);
    assert!(response.headers.is_empty());
    assert_eq!(response.body, raw);
}

#[test]
fn bare_lf_separates_header_lines_too() {
    let raw = b"A: 1\nB: 2\r\n\r\nbody";
    let response = PhpResponse::from_raw_output(raw);
    assert_eq!(response.headers.len(), 2);
    assert_eq!(response.headers.get("A"), Some(&"1".to_string()));
    assert_eq!(response.headers.get("B"), Some(&"2".to_string()));
}

#[test]
fn headers_can_be_walked_in_order() {
    let raw = b"B: 2\r\nA: 1\r\n\r\n";
    let response = PhpResponse::from_raw_output(raw);
    assert_eq!(response.headers.len(), 2);
    let first = response.headers.entry_at(0);
    let second = response.headers.entry_at(1);
    assert_eq!((first.0.as_str(), first.1.as_str()), ("B", "2"));
    assert_eq!((second.0.as_str(), second.1.as_str()), ("A", "1"));
}

#[test]
fn new_response_is_empty_with_default_status() {
    let response = PhpResponse::new();
    assert_eq!(response.status_code, 200);
    assert!(response.body.is_empty());
    assert!(response.headers.is_empty());
}
