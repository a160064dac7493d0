//! Wire-format responses: a status line, a content type, and a body.

use vstd::prelude::*;

verus! {

/// Status line of a successful response.
pub const STATUS_OK: &'static str = "200 OK";

/// Status line of a request with a missing or unusable body.
pub const STATUS_BAD_REQUEST: &'static str = "400 BAD REQUEST";

/// Status line of a request without credentials, or by someone who does not own the task.
pub const STATUS_UNAUTHORIZED: &'static str = "401 UNAUTHORIZED";

/// Status line of an unknown route, an unknown task, or failed credentials.
pub const STATUS_NOT_FOUND: &'static str = "404 NOT FOUND";

/// Status line of a registration whose username is taken.
pub const STATUS_CONFLICT: &'static str = "409 CONFLICT";

/// The content type of every response the router builds.
pub const CONTENT_TYPE_JSON: &'static str = "application/json";

/// Body of a 404 response, written with a space after the colon.
pub const NOT_FOUND_BODY: &'static str = "{\"error\": \"Not Found\"}";

/// Body of a 401 response, written with a space after the colon.
pub const UNAUTHORIZED_BODY: &'static str = "{\"error\": \"Unauthorized\"}";

/// The text of a response: status line, content type header, blank line, body.
pub open spec fn response_text(status: Seq<char>, content_type: Seq<char>, body: Seq<char>) -> Seq<char> {
    "HTTP/1.1 "@ + status + "\r\nContent-Type: "@ + content_type + "\r\n\r\n"@ + body
}

/// A response waiting to be written out.
pub struct ResponseBuilder {
    status_code: &'static str,
    content_type: &'static str,
    body: String,
}

impl View for ResponseBuilder {
    /// Status line, content type and body.
    type V = (Seq<char>, Seq<char>, Seq<char>);

    closed spec fn view(&self) -> (Seq<char>, Seq<char>, Seq<char>) {
        (self.status_code@, self.content_type@, self.body@)
    }
}

impl ResponseBuilder {
    pub fn new(status_code: &'static str, content_type: &'static str, body: String) -> (r: Self)
        ensures
            r@ == (status_code@, content_type@, body@),
    {
        ResponseBuilder { status_code, content_type, body }
    }

    /// A 200 response carrying the given JSON text.
    pub fn json(body: String) -> (r: Self)
        ensures
            r@ == (STATUS_OK@, CONTENT_TYPE_JSON@, body@),
    {
        ResponseBuilder::new(STATUS_OK, CONTENT_TYPE_JSON, body)
    }

    pub fn not_found() -> (r: Self)
        ensures
            r@ == (STATUS_NOT_FOUND@, CONTENT_TYPE_JSON@, NOT_FOUND_BODY@),
    {
        ResponseBuilder::new(STATUS_NOT_FOUND, CONTENT_TYPE_JSON, String::from_str(NOT_FOUND_BODY))
    }

    pub fn unauthorized() -> (r: Self)
        ensures
            r@ == (STATUS_UNAUTHORIZED@, CONTENT_TYPE_JSON@, UNAUTHORIZED_BODY@),
    {
        ResponseBuilder::new(STATUS_UNAUTHORIZED, CONTENT_TYPE_JSON, String::from_str(UNAUTHORIZED_BODY))
    }

    /// A 400 response carrying the given JSON text.
    pub fn bad_request(body: String) -> (r: Self)
        ensures
            r@ == (STATUS_BAD_REQUEST@, CONTENT_TYPE_JSON@, body@),
    {
        ResponseBuilder::new(STATUS_BAD_REQUEST, CONTENT_TYPE_JSON, body)
    }

    /// A 409 response carrying the given JSON text.
    pub fn conflict(body: String) -> (r: Self)
        ensures
            r@ == (STATUS_CONFLICT@, CONTENT_TYPE_JSON@, body@),
    {
        ResponseBuilder::new(STATUS_CONFLICT, CONTENT_TYPE_JSON, body)
    }

    pub fn build(&self) -> (r: String)
        ensures
            r@ == response_text(self@.0, self@.1, self@.2),
    {
        let mut out = String::from_str("HTTP/1.1 ");
        out.append(self.status_code);
        out.append("\r\nContent-Type: ");
        out.append(self.content_type);
        out.append("\r\n\r\n");
        out.append(self.body.as_str());
        out
    }
}

} // verus!
