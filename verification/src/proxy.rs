//! How the HTTP front end answers an invocation request.

use vstd::prelude::*;

use crate::dispatcher::{error_body, error_body_text};

verus! {

/// How long a request may wait for room in the dispatcher's queue, in
/// milliseconds.
pub const QUEUE_TIMEOUT_MS: u64 = 5000;

/// HTTP status of a request refused because the queue stayed full.
pub const STATUS_GATEWAY_TIMEOUT: u16 = 504;

/// HTTP status of a request that could not be served.
pub const STATUS_INTERNAL_SERVER_ERROR: u16 = 500;

/// What became of an invocation request.
#[derive(Debug)]
pub enum ProxyOutcome {
    /// The dispatcher's queue stayed full for `QUEUE_TIMEOUT_MS`.
    QueueTimeout,
    /// The dispatcher could not serve it, with this message.
    Failed(String),
    /// The instance answered; its response goes back as it is.
    Answered,
}

/// The status and body of the response that the front end writes itself,
/// or nothing where the instance's own response is passed on.
pub open spec fn proxy_response_spec(o: ProxyOutcome) -> Option<(u16, Seq<char>)> {
    match o {
        ProxyOutcome::QueueTimeout => Some(
            (STATUS_GATEWAY_TIMEOUT, error_body_text("too many requests"@)),
        ),
        ProxyOutcome::Failed(msg) => Some((STATUS_INTERNAL_SERVER_ERROR, error_body_text(msg@))),
        ProxyOutcome::Answered => None,
    }
}

/// The response to an invocation request (see `proxy_response_spec`): 504
/// when the queue stayed full, 500 with the error when the request could
/// not be served, and the instance's own response otherwise.
pub fn proxy_response(o: &ProxyOutcome) -> (r: Option<(u16, String)>)
    ensures
        match (r, proxy_response_spec(*o)) {
            (None, None) => true,
            (Some((c, b)), Some((c2, b2))) => c == c2 && b@ == b2,
            _ => false,
        },
{
    match o {
        ProxyOutcome::QueueTimeout => Some((STATUS_GATEWAY_TIMEOUT, error_body("too many requests"))),
        ProxyOutcome::Failed(msg) => Some((STATUS_INTERNAL_SERVER_ERROR, error_body(msg.as_str()))),
        ProxyOutcome::Answered => None,
    }
}

} // verus!
