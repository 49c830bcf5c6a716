//! What the building blocks read of a request and write of a response, as
//! plain values. The transport fills a `Request` from what it received and
//! carries a `Response` back onto what it sends.

use vstd::prelude::*;

verus! {

/// One inbound request, as far as the building blocks look at it.
#[derive(Debug, Clone, PartialEq, Eq)]
pub struct Request {
    /// The request method, in upper case.
    pub method: String,
    /// The path as it was received, still percent-encoded.
    pub path: String,
    /// The query string, without the question mark.
    pub query: Option<String>,
    /// The value of the first authorization header.
    pub authorization: Option<String>,
    /// The caller's network address, where the transport knows it.
    pub peer: Option<String>,
    /// The payload of a verified token, once the guard has attached it.
    pub claims: Option<String>,
}

/// One outbound response, as far as the building blocks look at it.
#[derive(Debug, Clone, PartialEq, Eq)]
pub struct Response {
    pub status: u16,
    pub content_type: Option<String>,
    pub content_length: Option<u64>,
    pub content_disposition: Option<String>,
    /// The redirect target, as the bytes of the header.
    pub location: Option<Vec<u8>>,
    /// A body that takes the place of the one the downstream handler
    /// produced. `None` leaves that body as it is.
    pub body: Option<Vec<u8>>,
}

/// The status of a request that cannot be understood.
pub const BAD_REQUEST: u16 = 400;

/// The status of a request that does not show what it must.
pub const UNAUTHORIZED: u16 = 401;

/// The status of a request that is not allowed.
pub const FORBIDDEN: u16 = 403;

/// The status that says a resource was not found.
pub const NOT_FOUND: u16 = 404;

/// The status of a request whose data cannot be worked with.
pub const UNPROCESSABLE: u16 = 422;

/// The characters of an optional string.
pub open spec fn opt_text(s: Option<String>) -> Option<Seq<char>> {
    match s {
        Some(s) => Some(s@),
        None => None,
    }
}

/// The bytes of an optional buffer.
pub open spec fn opt_bytes(b: Option<Vec<u8>>) -> Option<Seq<u8>> {
    match b {
        Some(b) => Some(b@),
        None => None,
    }
}

impl Request {
    /// A request with a method and a path and nothing else.
    pub fn new(method: &str, path: &str) -> (req: Request)
        ensures
            req.method@ == method@,
            req.path@ == path@,
            req.query is None,
            req.authorization is None,
            req.peer is None,
            req.claims is None,
    {
        Request {
            method: method.to_owned(),
            path: path.to_owned(),
            query: None,
            authorization: None,
            peer: None,
            claims: None,
        }
    }
}

impl Response {
    /// A response with a status and nothing else.
    pub fn new(status: u16) -> (res: Response)
        ensures
            res.status == status,
            res.content_type is None,
            res.content_length is None,
            res.content_disposition is None,
            res.location is None,
            res.body is None,
    {
        Response {
            status,
            content_type: None,
            content_length: None,
            content_disposition: None,
            location: None,
            body: None,
        }
    }
}

} // verus!
