//! What the proxy answers: HTTP response framing, the choice of route
//! for a request, and the reply for each route.
use vstd::prelude::*;
use vstd::utf8::{decode_utf8, encode_utf8, valid_utf8};
use crate::http::RequestError;
use crate::text::{int_text, replace_all, replaced, starts_with, usize_text};

verus! {

/// `std::str::from_utf8`: the text that `bytes` encode, when they are
/// valid UTF-8.
#[verifier::external_body]
fn utf8_text<'a>(bytes: &'a [u8]) -> (r: Option<&'a str>)
    ensures
        r is Some <==> valid_utf8(bytes@),
        r matches Some(s) ==> s@ == decode_utf8(bytes@),
{
    std::str::from_utf8(bytes).ok()
}

/// `"` + `s` + `"`, without escaping.
pub open spec fn quoted(s: Seq<char>) -> Seq<char> {
    seq!['"'] + s + seq!['"']
}

/// `s` between double quotes (no escaping is done).
pub fn quotes(s: &str) -> (r: String)
    ensures
        r@ == quoted(s@),
{
    let mut r = String::new();
    r.append("\"");
    r.append(s);
    r.append("\"");
    proof {
        reveal_strlit("\"");
    }
    assert(r@ =~= quoted(s@));
    r
}

/// The number of bytes of the UTF-8 encoding of `s` (`str::len`; a
/// string in memory never holds more than `usize::MAX` bytes).
pub open spec fn byte_len(s: Seq<char>) -> usize {
    encode_utf8(s).len() as usize
}

/// The full text of a response with this status line, body and content
/// type; `Content-Length` counts the bytes of the body's UTF-8 encoding.
pub open spec fn response_spec(status: Seq<char>, body: Seq<char>, content_type: Seq<char>) -> Seq<char> {
    status + "\r\nAccess-Control-Allow-Origin: *\r\nContent-Type: "@ + content_type
        + "\r\nContent-Length: "@ + int_text(byte_len(body) as int) + "\r\n\r\n"@ + body
}

/// Frames a response: status line, the CORS, content type and length
/// headers, a blank line, then the body.
pub fn crate_response(status_line: &str, body: String, content_type: &str) -> (r: String)
    ensures
        r@ == response_spec(status_line@, body@, content_type@),
{
    let length = body.as_str().len();
    let mut r = String::new();
    r.append(status_line);
    r.append("\r\nAccess-Control-Allow-Origin: *\r\nContent-Type: ");
    r.append(content_type);
    r.append("\r\nContent-Length: ");
    let digits = usize_text(length);
    r.append(digits.as_str());
    r.append("\r\n\r\n");
    r.append(body.as_str());
    assert(r@ =~= response_spec(status_line@, body@, content_type@));
    r
}

/// The routes the proxy serves.
#[derive(Debug, PartialEq, Eq, Structural)]
pub enum Route {
    /// `GET / HTTP/...`: the start page.
    Index,
    /// `GET /query.js...`: the client script.
    QueryScript,
    /// `POST /query...`: run the body as SQL.
    Query,
    /// `POST /crop-image...`: crop the image in the body.
    CropImage,
    /// Anything else.
    NotFound,
}

/// The route of a request line: the first of the prefixes, in the
/// order below, that the line starts with.
pub open spec fn route_spec(line: Seq<char>) -> Route {
    if "GET / HTTP/"@.is_prefix_of(line) {
        Route::Index
    } else if "GET /query.js"@.is_prefix_of(line) {
        Route::QueryScript
    } else if "POST /query"@.is_prefix_of(line) {
        Route::Query
    } else if "POST /crop-image"@.is_prefix_of(line) {
        Route::CropImage
    } else {
        Route::NotFound
    }
}

/// Chooses the route of a request by its request line.
pub fn route(request_line: &str) -> (r: Route)
    ensures
        r == route_spec(request_line@),
{
    if starts_with(request_line, "GET / HTTP/") {
        Route::Index
    } else if starts_with(request_line, "GET /query.js") {
        Route::QueryScript
    } else if starts_with(request_line, "POST /query") {
        Route::Query
    } else if starts_with(request_line, "POST /crop-image") {
        Route::CropImage
    } else {
        Route::NotFound
    }
}

/// Whether a request on this route with this body reads its body as text.
pub open spec fn reads_body_text(route: Route, body: Seq<u8>) -> bool {
    route == Route::Query || (route == Route::CropImage && body.len() > 0)
}

/// What the proxy does next with a request.
pub enum Step {
    /// Send this response.
    Reply(String),
    /// Run this SQL text; answer with [`query_reply`].
    RunQuery(String),
    /// Crop the image in this data URL; answer with [`crop_reply`].
    CropImage(String),
}

/// Handles a request whose head has been read: answers the static routes
/// and the refusals at once, and names the work the other routes need.
/// `index_html` and `query_js` are the pages served; `3000` in the script
/// becomes the proxy's `port`.
pub fn handle_request(request_line: &str, body: &[u8], index_html: &str, query_js: &str, port: &str) -> (r: Step)
    requires
        reads_body_text(route_spec(request_line@), body@) ==> valid_utf8(body@),
    ensures
        route_spec(request_line@) == Route::Index ==> (r matches Step::Reply(s) && s@
            == response_spec("HTTP/1.1 200 OK"@, index_html@, "text/html"@)),
        route_spec(request_line@) == Route::QueryScript ==> (r matches Step::Reply(s) && s@
            == response_spec(
            "HTTP/1.1 200 OK"@,
            replaced(query_js@, "3000"@, port@),
            "application/javascript"@,
        )),
        route_spec(request_line@) == Route::Query ==> (r matches Step::RunQuery(q) && q@
            == decode_utf8(body@)),
        route_spec(request_line@) == Route::CropImage && body@.len() == 0 ==> (r matches Step::Reply(
            s,
        ) && s@ == response_spec("HTTP/1.1 400 Bad Request"@, "Body is required"@, "text/plain"@)),
        route_spec(request_line@) == Route::CropImage && body@.len() > 0 ==> (r matches Step::CropImage(
            d,
        ) && d@ == decode_utf8(body@)),
        route_spec(request_line@) == Route::NotFound ==> (r matches Step::Reply(s) && s@
            == response_spec("HTTP/1.1 404 NOT FOUND"@, "404 NOT FOUND"@, "text/plain"@)),
{
    match route(request_line) {
        Route::Index => Step::Reply(
            crate_response("HTTP/1.1 200 OK", index_html.to_owned(), "text/html"),
        ),
        Route::QueryScript => {
            let script = replace_all(query_js, "3000", port);
            Step::Reply(crate_response("HTTP/1.1 200 OK", script, "application/javascript"))
        },
        Route::Query => Step::RunQuery(utf8_text(body).unwrap().to_owned()),
        Route::CropImage => {
            if body.len() == 0 {
                Step::Reply(
                    crate_response(
                        "HTTP/1.1 400 Bad Request",
                        "Body is required".to_owned(),
                        "text/plain",
                    ),
                )
            } else {
                Step::CropImage(utf8_text(body).unwrap().to_owned())
            }
        },
        Route::NotFound => Step::Reply(
            crate_response("HTTP/1.1 404 NOT FOUND", "404 NOT FOUND".to_owned(), "text/plain"),
        ),
    }
}

/// The answer to a request refused while its head was read.
pub fn request_error_reply(error: &RequestError) -> (r: String)
    ensures
        r@ == response_spec(
            "HTTP/1.1 413 Payload Too Large"@,
            "PAYLOAD TOO LARGE"@,
            "text/plain"@,
        ),
{
    match error {
        RequestError::MaxPayloadSize => crate_response(
            "HTTP/1.1 413 Payload Too Large",
            "PAYLOAD TOO LARGE".to_owned(),
            "text/plain",
        ),
    }
}

/// The answer to a query: the rows as JSON, or the database's message.
pub fn query_reply(outcome: Result<String, String>) -> (r: String)
    ensures
        outcome matches Ok(json) ==> r@ == response_spec(
            "HTTP/1.1 200 OK"@,
            json@,
            "application/json"@,
        ),
        outcome matches Err(message) ==> r@ == response_spec(
            "HTTP/1.1 400 Bad Request"@,
            message@,
            "text/plain"@,
        ),
{
    match outcome {
        Ok(json) => crate_response("HTTP/1.1 200 OK", json, "application/json"),
        Err(message) => crate_response("HTTP/1.1 400 Bad Request", message, "text/plain"),
    }
}

/// The answer to an image crop: the cropped image's data URL, or a
/// fixed message when cropping failed.
pub fn crop_reply(outcome: Option<String>) -> (r: String)
    ensures
        outcome matches Some(url) ==> r@ == response_spec("HTTP/1.1 200 OK"@, url@, "text/plain"@),
        outcome is None ==> r@ == response_spec(
            "HTTP/1.1 400 Bad Request"@,
            "Failed to crop image"@,
            "text/plain"@,
        ),
{
    match outcome {
        Some(url) => crate_response("HTTP/1.1 200 OK", url, "text/plain"),
        None => crate_response(
            "HTTP/1.1 400 Bad Request",
            "Failed to crop image".to_owned(),
            "text/plain",
        ),
    }
}

/// The message of a failed query, with Postgres's `db error: ERROR: `
/// prefixes removed.
pub fn query_error_message(error_text: &str) -> (r: String)
    ensures
        r@ == replaced(error_text@, "db error: ERROR: "@, ""@),
{
    replace_all(error_text, "db error: ERROR: ", "")
}

} // verus!
