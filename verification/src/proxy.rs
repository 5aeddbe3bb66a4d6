//! Decision rules of the connection proxy.
//!
//! The proxy itself is asynchronous network plumbing and lives outside the
//! library; what it decides — which upstream server a connection goes to,
//! and how a failed request read is answered — is decided here, over plain
//! values.

use vstd::prelude::*;

verus! {

/// The status code sent when a request cannot be parsed or carried.
pub const HTTP_BAD_REQUEST: u16 = 400;

/// The status code sent when a request body exceeds the acceptable size.
pub const HTTP_PAYLOAD_TOO_LARGE: u16 = 413;

/// The status code sent when the client connection itself failed.
pub const HTTP_SERVICE_UNAVAILABLE: u16 = 503;

/// The status code sent when the upstream server cannot be reached or read.
pub const HTTP_BAD_GATEWAY: u16 = 502;

/// Why reading a request from the client failed.
#[derive(PartialEq, Eq, Structural, Clone, Copy, Debug)]
pub enum RequestError {
    /// The client hung up after sending this many bytes of an unfinished
    /// request.
    IncompleteRequest(u64),
    /// The bytes do not form a well-formed request.
    MalformedRequest,
    /// The declared content length is not a number.
    InvalidContentLength,
    /// The body does not match the declared content length.
    ContentLengthMismatch,
    /// The body exceeds the acceptable size.
    RequestBodyTooLarge,
    /// Reading from the connection failed.
    ConnectionError,
}

/// The status code answering each request error.
pub open spec fn spec_error_status(e: RequestError) -> u16 {
    match e {
        RequestError::IncompleteRequest(_) => HTTP_BAD_REQUEST,
        RequestError::MalformedRequest => HTTP_BAD_REQUEST,
        RequestError::InvalidContentLength => HTTP_BAD_REQUEST,
        RequestError::ContentLengthMismatch => HTTP_BAD_REQUEST,
        RequestError::RequestBodyTooLarge => HTTP_PAYLOAD_TOO_LARGE,
        RequestError::ConnectionError => HTTP_SERVICE_UNAVAILABLE,
    }
}

pub fn error_status(e: &RequestError) -> (r: u16)
    ensures
        r == spec_error_status(*e),
{
    match e {
        RequestError::IncompleteRequest(_) => HTTP_BAD_REQUEST,
        RequestError::MalformedRequest => HTTP_BAD_REQUEST,
        RequestError::InvalidContentLength => HTTP_BAD_REQUEST,
        RequestError::ContentLengthMismatch => HTTP_BAD_REQUEST,
        RequestError::RequestBodyTooLarge => HTTP_PAYLOAD_TOO_LARGE,
        RequestError::ConnectionError => HTTP_SERVICE_UNAVAILABLE,
    }
}

/// What the proxy does when a request read fails.
#[derive(PartialEq, Eq, Structural, Clone, Copy, Debug)]
pub enum ReadFailureAction {
    /// The client finished sending requests and hung up cleanly: shut the
    /// connection down without an answer.
    CloseQuietly,
    /// The connection itself failed: nothing can be answered.
    CloseOnIoError,
    /// Answer with this status code and keep serving the connection.
    Respond(u16),
}

/// Classifies a failed request read: a clean hang-up (an incomplete request
/// of zero bytes) and a connection failure close the connection; every other
/// error is answered with its status code and the connection kept.
pub fn classify_read_failure(e: &RequestError) -> (r: ReadFailureAction)
    ensures
        r == (match e {
            RequestError::IncompleteRequest(0) => ReadFailureAction::CloseQuietly,
            RequestError::ConnectionError => ReadFailureAction::CloseOnIoError,
            _ => ReadFailureAction::Respond(spec_error_status(*e)),
        }),
{
    match e {
        RequestError::IncompleteRequest(n) => {
            if *n == 0 {
                ReadFailureAction::CloseQuietly
            } else {
                ReadFailureAction::Respond(HTTP_BAD_REQUEST)
            }
        },
        RequestError::ConnectionError => ReadFailureAction::CloseOnIoError,
        _ => ReadFailureAction::Respond(error_status(e)),
    }
}

/// Picks the upstream server a new connection is forwarded to, from a random
/// draw handed in by the caller: the draw is reduced onto the server list.
pub fn pick_upstream(servers: usize, draw: usize) -> (r: usize)
    requires
        servers > 0,
    ensures
        r == draw % servers,
        r < servers,
{
    draw % servers
}

} // verus!
