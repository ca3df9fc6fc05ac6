//! Judging what a plug answered to its status call.

use vstd::prelude::*;
use vstd::string::*;
use crate::json::{holds_no_break, json_contents, json_document, parse_json, Contents};

verus! {

/// Why a plug gave no reading.
#[derive(Clone, Copy, Debug, PartialEq, Eq, Structural)]
pub enum FetchError {
    /// The plug could not be reached, or did not answer in time.
    ConnectionFailed,
    /// The plug answered with a status outside 200 to 299.
    UnexpectedStatus,
    /// The plug answered with a body that is not JSON.
    InvalidResponseBody,
}

impl FetchError {
    /// The text under which the failure is reported.
    pub open spec fn message_text(self) -> Seq<char> {
        match self {
            FetchError::ConnectionFailed => "Failed to connect to API!"@,
            FetchError::UnexpectedStatus => "API request failed with non 200 status code"@,
            FetchError::InvalidResponseBody => "Invalid response!"@,
        }
    }

    /// The text under which the failure is reported.
    pub fn message(&self) -> (text: String)
        ensures
            text@ == self.message_text(),
    {
        match self {
            FetchError::ConnectionFailed => String::from_str("Failed to connect to API!"),
            FetchError::UnexpectedStatus => String::from_str(
                "API request failed with non 200 status code",
            ),
            FetchError::InvalidResponseBody => String::from_str("Invalid response!"),
        }
    }
}

/// The outcome of one status call, as the caller that made it saw it.
#[derive(Clone, Debug)]
pub enum DeviceReply {
    /// No answer: the connection failed or the time ran out.
    Unreachable,
    /// An answer, with its status code and its body.
    Answered { status: u16, body: Vec<u8> },
}

/// Status codes that count as success.
pub open spec fn is_success(status: u16) -> bool {
    200 <= status <= 299
}

/// What a reply amounts to: the contents of the status document, or the
/// reason there is none.
pub open spec fn reply_outcome(reply: DeviceReply) -> Result<Contents, FetchError> {
    match reply {
        DeviceReply::Unreachable => Err(FetchError::ConnectionFailed),
        DeviceReply::Answered { status, body } => if !is_success(status) {
            Err(FetchError::UnexpectedStatus)
        } else {
            match json_document(body@) {
                Some(doc) => Ok(doc),
                None => Err(FetchError::InvalidResponseBody),
            }
        },
    }
}

/// Whether a status code counts as success.
pub fn status_is_success(status: u16) -> (ok: bool)
    ensures
        ok == is_success(status),
{
    200 <= status && status <= 299
}

/// Turns the result of reading a body into the outcome of the call: the
/// document that was read, or `InvalidResponseBody`.
pub fn body_outcome(
    parsed: Result<serde_json::Value, serde_json::Error>,
) -> (outcome: Result<serde_json::Value, FetchError>)
    ensures
        match parsed {
            Ok(document) => outcome == Ok::<serde_json::Value, FetchError>(document),
            Err(_) => outcome == Err::<serde_json::Value, FetchError>(
                FetchError::InvalidResponseBody,
            ),
        },
{
    match parsed {
        Ok(document) => Ok(document),
        Err(_) => Err(FetchError::InvalidResponseBody),
    }
}

/// Judges a reply: the status document of a successful answer with a JSON
/// body, and otherwise the first reason that applies. No text of the
/// document holds a line break.
pub fn validate_reply(reply: &DeviceReply) -> (outcome: Result<serde_json::Value, FetchError>)
    ensures
        match outcome {
            Ok(document) => reply_outcome(*reply) == Ok::<Contents, FetchError>(
                json_contents(document),
            ) && holds_no_break(json_contents(document)),
            Err(error) => reply_outcome(*reply) == Err::<Contents, FetchError>(error),
        },
{
    match reply {
        DeviceReply::Unreachable => Err(FetchError::ConnectionFailed),
        DeviceReply::Answered { status, body } => {
            if !status_is_success(*status) {
                Err(FetchError::UnexpectedStatus)
            } else {
                body_outcome(parse_json(body.as_slice()))
            }
        },
    }
}

/// Each way of failing has its own kind: no answer is `ConnectionFailed`, a
/// status outside the success range is `UnexpectedStatus` whatever the body
/// holds, and a success status fails only on a body that is not JSON, as
/// `InvalidResponseBody`.
pub proof fn lemma_failure_kinds(reply: DeviceReply)
    ensures
        match reply {
            DeviceReply::Unreachable => reply_outcome(reply) == Err::<Contents, FetchError>(
                FetchError::ConnectionFailed,
            ),
            DeviceReply::Answered { status, body } => if !is_success(status) {
                reply_outcome(reply) == Err::<Contents, FetchError>(FetchError::UnexpectedStatus)
            } else if json_document(body@) is None {
                reply_outcome(reply) == Err::<Contents, FetchError>(
                    FetchError::InvalidResponseBody,
                )
            } else {
                reply_outcome(reply) is Ok
            },
        },
        FetchError::InvalidResponseBody != FetchError::UnexpectedStatus,
        FetchError::InvalidResponseBody != FetchError::ConnectionFailed,
        FetchError::UnexpectedStatus != FetchError::ConnectionFailed,
{
}

} // verus!
