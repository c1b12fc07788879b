use postgres_browser_proxy::{
    crate_response, crop_reply, handle_request, parse_request, query_error_message, query_reply,
    quotes, request_error_reply, route, RequestError, Route, Step,
};

const INDEX: &str = "<html>hi</html>";
const SCRIPT: &str = "const url = 'http://localhost:3000/query'; // 3000";

fn expected(status: &str, body: &str, content_type: &str) -> String {
    format!(
        "{}\r\nAccess-Control-Allow-Origin: *\r\nContent-Type: {}\r\nContent-Length: {}\r\n\r\n{}",
        status,
        content_type,
        body.len(),
        body
    )
}

#[test]
fn frames_responses() {
    assert_eq!(
        crate_response("HTTP/1.1 200 OK", "abc".to_string(), "text/plain"),
        "HTTP/1.1 200 OK\r\nAccess-Control-Allow-Origin: *\r\nContent-Type: text/plain\r\nContent-Length: 3\r\n\r\nabc"
    );
    assert_eq!(
        crate_response("HTTP/1.1 200 OK", "héllo €".to_string(), "text/plain"),
        expected("HTTP/1.1 200 OK", "héllo €", "text/plain")
    );
    assert!(crate_response("X", "héllo €".to_string(), "t").contains("Content-Length: 10\r\n"));
    assert_eq!(
        crate_response("HTTP/1.1 200 OK", String::new(), "text/html"),
        "HTTP/1.1 200 OK\r\nAccess-Control-Allow-Origin: *\r\nContent-Type: text/html\r\nContent-Length: 0\r\n\r\n"
    );
}

#[test]
fn quoting_does_not_escape() {
    assert_eq!(quotes("name"), "\"name\"");
    assert_eq!(quotes("a\"b"), "\"a\"b\"");
    assert_eq!(quotes(""), "\"\"");
}

#[test]
fn routes() {
    assert_eq!(route("GET / HTTP/1.1"), Route::Index);
    assert_eq!(route("GET /query.js HTTP/1.1"), Route::QueryScript);
    assert_eq!(route("POST /query HTTP/1.1"), Route::Query);
    assert_eq!(route("POST /query.js HTTP/1.1"), Route::Query);
    assert_eq!(route("POST /crop-image HTTP/1.1"), Route::CropImage);
    assert_eq!(route("GET /index.html HTTP/1.1"), Route::NotFound);
    assert_eq!(route("GET /query HTTP/1.1"), Route::NotFound);
    assert_eq!(route(""), Route::NotFound);
}

fn reply(step: Step) -> String {
    match step {
        Step::Reply(s) => s,
        _ => panic!("expected a reply"),
    }
}

#[test]
fn static_routes() {
    let s = handle_request("GET / HTTP/1.1", b"", INDEX, SCRIPT, "8080");
    assert_eq!(reply(s), expected("HTTP/1.1 200 OK", INDEX, "text/html"));
    let s = handle_request("GET /query.js HTTP/1.1", b"", INDEX, SCRIPT, "8080");
    assert_eq!(
        reply(s),
        expected(
            "HTTP/1.1 200 OK",
            "const url = 'http://localhost:8080/query'; // 8080",
            "application/javascript"
        )
    );
    let s = handle_request("GET /query.js HTTP/1.1", b"", INDEX, SCRIPT, "3000");
    assert_eq!(reply(s), expected("HTTP/1.1 200 OK", SCRIPT, "application/javascript"));
    let s = handle_request("DELETE /x HTTP/1.1", b"abc", INDEX, SCRIPT, "8080");
    assert_eq!(reply(s), expected("HTTP/1.1 404 NOT FOUND", "404 NOT FOUND", "text/plain"));
}

#[test]
fn work_routes() {
    match handle_request("POST /query HTTP/1.1", b"SELECT 1;", INDEX, SCRIPT, "3000") {
        Step::RunQuery(q) => assert_eq!(q, "SELECT 1;"),
        _ => panic!("expected a query"),
    }
    match handle_request("POST /query HTTP/1.1", b"", INDEX, SCRIPT, "3000") {
        Step::RunQuery(q) => assert_eq!(q, ""),
        _ => panic!("expected a query"),
    }
    match handle_request("POST /crop-image HTTP/1.1", "data:é".as_bytes(), INDEX, SCRIPT, "3000") {
        Step::CropImage(d) => assert_eq!(d, "data:é"),
        _ => panic!("expected a crop"),
    }
    let s = handle_request("POST /crop-image HTTP/1.1", b"", INDEX, SCRIPT, "3000");
    assert_eq!(reply(s), expected("HTTP/1.1 400 Bad Request", "Body is required", "text/plain"));
}

#[test]
fn replies() {
    assert_eq!(
        request_error_reply(&RequestError::MaxPayloadSize),
        expected("HTTP/1.1 413 Payload Too Large", "PAYLOAD TOO LARGE", "text/plain")
    );
    assert_eq!(
        query_reply(Ok("[]".to_string())),
        expected("HTTP/1.1 200 OK", "[]", "application/json")
    );
    assert_eq!(
        query_reply(Err("syntax error".to_string())),
        expected("HTTP/1.1 400 Bad Request", "syntax error", "text/plain")
    );
    assert_eq!(
        crop_reply(Some("data:image/jpeg;base64,AA==".to_string())),
        expected("HTTP/1.1 200 OK", "data:image/jpeg;base64,AA==", "text/plain")
    );
    assert_eq!(
        crop_reply(None),
        expected("HTTP/1.1 400 Bad Request", "Failed to crop image", "text/plain")
    );
}

#[test]
fn query_errors_lose_their_prefix() {
    assert_eq!(
        query_error_message("db error: ERROR: relation \"users\" does not exist"),
        "relation \"users\" does not exist"
    );
    assert_eq!(query_error_message("connection closed"), "connection closed");
}

#[test]
fn own_response_head_reads_back() {
    let body = "[{\"id\":1}] é";
    let response = crate_response("HTTP/1.1 200 OK", body.to_string(), "application/json");
    let head_end = response.find("\r\n\r\n").unwrap() + 4;
    let head = &response[..head_end];
    assert_eq!(
        parse_request(head),
        Ok(("HTTP/1.1 200 OK".to_string(), body.len()))
    );
    assert_eq!(&response[head_end..], body);
}
