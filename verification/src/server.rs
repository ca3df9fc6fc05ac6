//! What the metrics endpoint answers to a scrape request.

use vstd::prelude::*;
use vstd::string::*;
use crate::fetch::FetchError;

verus! {

/// Status of an answer that carries the exposition text.
pub const STATUS_OK: u16 = 200;

/// Status of an answer to a scrape that failed.
pub const STATUS_INTERNAL_SERVER_ERROR: u16 = 500;

/// An answer of the metrics endpoint: status code, content type and body.
#[derive(Clone, Debug)]
pub struct HttpReply {
    pub status: u16,
    pub content_type: String,
    pub body: String,
}

/// The content type of every answer: plain text.
pub open spec fn plain_text() -> Seq<char> {
    "text/plain; charset=utf-8"@
}

/// The body sent for a scrape that failed. It names no plug and no cause.
pub open spec fn failure_notice() -> Seq<char> {
    "Failed to process, please check application logs"@
}

/// The answer to a scrape request: the exposition text with status 200, or
/// the same fixed notice with status 500 whichever way the scrape failed.
pub fn metrics_response(outcome: Result<String, FetchError>) -> (reply: HttpReply)
    ensures
        reply.content_type@ == plain_text(),
        match outcome {
            Ok(body) => reply.status == STATUS_OK && reply.body@ == body@,
            Err(_) => reply.status == STATUS_INTERNAL_SERVER_ERROR && reply.body@
                == failure_notice(),
        },
{
    let content_type = String::from_str("text/plain; charset=utf-8");
    match outcome {
        Ok(body) => HttpReply { status: STATUS_OK, content_type, body },
        Err(_) => HttpReply {
            status: STATUS_INTERNAL_SERVER_ERROR,
            content_type,
            body: String::from_str("Failed to process, please check application logs"),
        },
    }
}

} // verus!
