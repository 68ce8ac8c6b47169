//! The payload board: `POST /post` adds a payload, `GET /data` lists them.

use vstd::prelude::*;
use crate::text::{join, join_spec, texts};

verus! {

broadcast use vstd::string::group_string_axioms;

/// `serde_json::Error`: a body that is not the JSON expected.
#[verifier::external_type_specification]
#[verifier::external_body]
pub struct ExJsonError(serde_json::Error);

/// The separator between payloads in the answer to a post.
pub open spec fn post_separator() -> Seq<char> {
    " ;\n"@
}

/// The separator between payloads in the listing.
pub open spec fn listing_separator() -> Seq<char> {
    ";\n"@
}

/// Adds `data` at the end of the board; answers with every payload on the
/// board, the new one last, separated by ` ;\n`.
pub fn post_payload(board: &mut Vec<String>, data: String) -> (r: String)
    ensures
        final(board)@ == old(board)@.push(data),
        r@ == join_spec(texts(final(board)@), post_separator()),
{
    board.push(data);
    join(board, " ;\n")
}

/// Every payload on the board, separated by `;\n`.
pub fn list_payloads(board: &Vec<String>) -> (r: String)
    ensures
        r@ == join_spec(texts(board@), listing_separator()),
{
    join(board, ";\n")
}

/// After a post of `data`, the listing is the earlier listing, then the
/// separator, then `data`; on an empty board it is `data` alone.
pub proof fn law_listing_after_post(before: Seq<String>, data: String)
    ensures
        join_spec(texts(before.push(data)), listing_separator()) == (if before.len() == 0 {
            data@
        } else {
            join_spec(texts(before), listing_separator()) + listing_separator() + data@
        }),
{
    let t = texts(before.push(data));
    assert(t.drop_last() =~= texts(before));
    assert(t.last() == data@);
}

/// The errors of the payload endpoints.
#[derive(Debug, Clone, Copy, PartialEq, Eq, Structural)]
pub enum PostError {
    /// The request could not be read or understood.
    ParseError,
    /// The shared board could not be locked.
    MutexError,
}

impl PostError {
    /// The message of every payload error, as its `Display` prints it.
    pub fn to_string(&self) -> (r: String)
        ensures
            r@ == "An error occurred."@,
    {
        "An error occurred.".to_string()
    }

    /// A short description of the kind of error.
    pub fn description(&self) -> (r: String)
        ensures
            r@ == (match self {
                PostError::ParseError => "Request could not be understood."@,
                PostError::MutexError => "Internal server error."@,
            }),
    {
        match self {
            PostError::ParseError => "Request could not be understood.".to_string(),
            PostError::MutexError => "Internal server error.".to_string(),
        }
    }

    /// The HTTP status of the answer to a request that failed so: 400 Bad
    /// Request for what could not be understood, 500 Internal Server Error
    /// otherwise.
    pub fn status_code(&self) -> (r: u16)
        ensures
            r == (match self {
                PostError::ParseError => 400u16,
                PostError::MutexError => 500u16,
            }),
    {
        match self {
            PostError::ParseError => 400,
            PostError::MutexError => 500,
        }
    }

    /// The body of the answer to a request that failed so.
    pub fn answer_text(&self) -> (r: String)
        ensures
            r@ == (match self {
                PostError::ParseError => "I didn't understand your request."@,
                PostError::MutexError => "There was a problem."@,
            }),
    {
        match self {
            PostError::ParseError => "I didn't understand your request.".to_string(),
            PostError::MutexError => "There was a problem.".to_string(),
        }
    }
}

/// The ways a request to the payload board, the webhook or the report page
/// can fail before the library decides anything.
#[derive(Debug, Clone, Copy, PartialEq, Eq, Structural)]
pub enum Failure {
    /// The body of a post could not be read.
    PostBodyUnreadable,
    /// The board could not be locked for a post.
    PostLockFailed,
    /// The board could not be locked for the listing.
    DataLockFailed,
    /// The webhook secret is not set.
    HookTokenMissing,
    /// The body of a webhook could not be read.
    HookBodyUnreadable,
    /// The body of a webhook is not the JSON of a pull-request event.
    HookPayloadInvalid,
    /// The archive could not be locked for a webhook.
    HookLockFailed,
    /// The archive could not be locked for the report page.
    ReportLockFailed,
}

impl Failure {
    /// The error a failure is reported as; the missing webhook secret is
    /// reported as the missing variable itself, so it has none.
    pub fn error(&self) -> (r: Option<PostError>)
        ensures
            r == (match self {
                Failure::PostBodyUnreadable | Failure::HookBodyUnreadable
                | Failure::HookPayloadInvalid => Some(PostError::ParseError),
                Failure::HookTokenMissing => None,
                _ => Some(PostError::MutexError),
            }),
    {
        match self {
            Failure::PostBodyUnreadable | Failure::HookBodyUnreadable
            | Failure::HookPayloadInvalid => Some(PostError::ParseError),
            Failure::HookTokenMissing => None,
            _ => Some(PostError::MutexError),
        }
    }

    /// The HTTP status of the answer: 400 for a body that could not be read
    /// or understood, 500 otherwise.
    pub fn status_code(&self) -> (r: u16)
        ensures
            r == (match self {
                Failure::PostBodyUnreadable | Failure::HookBodyUnreadable
                | Failure::HookPayloadInvalid => 400u16,
                _ => 500u16,
            }),
    {
        match self {
            Failure::PostBodyUnreadable | Failure::HookBodyUnreadable
            | Failure::HookPayloadInvalid => 400,
            _ => 500,
        }
    }

    /// The body of the answer.
    pub fn message(&self) -> (r: String)
        ensures
            r@ == (match self {
                Failure::PostBodyUnreadable => "Failed reading POST request body to 'data' buffer."@,
                Failure::PostLockFailed => "Couldn't get payload from PostH"@,
                Failure::DataLockFailed => "Couldn't get payload from DataH"@,
                Failure::HookTokenMissing => "Something went wrong"@,
                Failure::HookBodyUnreadable => "Failed reading POST request to buffer!"@,
                Failure::HookPayloadInvalid => "Failed deserializing payload!"@,
                Failure::HookLockFailed => "Mutex Error: couldn't get lock!"@,
                Failure::ReportLockFailed => "Mutex Error: couldn't get lock!"@,
            }),
    {
        match self {
            Failure::PostBodyUnreadable => "Failed reading POST request body to 'data' buffer.".to_string(),
            Failure::PostLockFailed => "Couldn't get payload from PostH".to_string(),
            Failure::DataLockFailed => "Couldn't get payload from DataH".to_string(),
            Failure::HookTokenMissing => "Something went wrong".to_string(),
            Failure::HookBodyUnreadable => "Failed reading POST request to buffer!".to_string(),
            Failure::HookPayloadInvalid => "Failed deserializing payload!".to_string(),
            Failure::HookLockFailed => "Mutex Error: couldn't get lock!".to_string(),
            Failure::ReportLockFailed => "Mutex Error: couldn't get lock!".to_string(),
        }
    }
}

impl From<serde_json::Error> for PostError {
    fn from(_err: serde_json::Error) -> (r: PostError) {
        PostError::ParseError
    }
}

impl vstd::std_specs::convert::FromSpecImpl<serde_json::Error> for PostError {
    open spec fn obeys_from_spec() -> bool {
        true
    }

    open spec fn from_spec(_err: serde_json::Error) -> PostError {
        PostError::ParseError
    }
}

} // verus!
