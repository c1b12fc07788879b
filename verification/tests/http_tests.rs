use postgres_browser_proxy::{check_head, is_head_end, parse_request, RequestError, MAX_PAYLOAD_SIZE};

#[test]
fn reads_request_line_and_length() {
    let head = "POST /query HTTP/1.1\r\nHost: localhost:3000\r\nContent-Length: 27\r\n\r\n";
    assert!(check_head(head));
    assert_eq!(parse_request(head), Ok(("POST /query HTTP/1.1".to_string(), 27)));
}

#[test]
fn no_length_means_empty_body() {
    let head = "GET / HTTP/1.1\r\nAccept: */*\r\n\r\n";
    assert_eq!(parse_request(head), Ok(("GET / HTTP/1.1".to_string(), 0)));
}

#[test]
fn last_length_line_wins() {
    let head = "POST /q HTTP/1.1\r\nContent-Length: 5\r\nContent-Length:  +7 \r\n\r\n";
    assert_eq!(parse_request(head), Ok(("POST /q HTTP/1.1".to_string(), 7)));
}

#[test]
fn value_after_last_colon() {
    let head = "POST /q HTTP/1.1\r\nContent-Length: x: 9\r\n\r\n";
    assert_eq!(parse_request(head), Ok(("POST /q HTTP/1.1".to_string(), 9)));
}

#[test]
fn payload_limit() {
    let at_limit = format!("POST /q HTTP/1.1\r\nContent-Length: {}\r\n\r\n", MAX_PAYLOAD_SIZE);
    assert_eq!(parse_request(&at_limit), Ok(("POST /q HTTP/1.1".to_string(), 12582912)));
    let over = format!("POST /q HTTP/1.1\r\nContent-Length: {}\r\n\r\n", MAX_PAYLOAD_SIZE + 1);
    assert_eq!(parse_request(&over), Err(RequestError::MaxPayloadSize));
}

#[test]
fn malformed_heads() {
    assert!(!check_head(""));
    assert!(!check_head("POST /q HTTP/1.1\r\nContent-Length: abc\r\n\r\n"));
    assert!(!check_head("POST /q HTTP/1.1\r\nContent-Length: -1\r\n\r\n"));
    assert!(!check_head("POST /q HTTP/1.1\r\nContent-Length: 99999999999999999999999\r\n\r\n"));
    assert!(!check_head("POST /q HTTP/1.1\r\nContent-Length:\r\n\r\n"));
    assert!(check_head("\r\n"));
    assert!(check_head("POST /q HTTP/1.1\r\ncontent-length: abc\r\n\r\n"));
}

#[test]
fn head_end_detection() {
    assert!(is_head_end(0));
    assert!(is_head_end(2));
    assert!(!is_head_end(3));
    assert!(!is_head_end(40));
}

#[test]
fn line_without_newline_keeps_carriage_return() {
    assert_eq!(parse_request("GET / HTTP/1.1\r"), Ok(("GET / HTTP/1.1\r".to_string(), 0)));
    assert_eq!(parse_request("\r\n"), Ok((String::new(), 0)));
}
