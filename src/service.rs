//! The answers of the publishing service.

use vstd::prelude::*;

verus! {

/// The answer to a request that failed.
#[derive(Debug)]
pub struct ErrorResponse {
    pub status: &'static str,
    pub message: String,
}

impl ErrorResponse {
    /// An error answer with `message`.
    pub fn new(message: String) -> (r: Self)
        ensures
            r.status@ == "error"@,
            r.message@ == message@,
    {
        ErrorResponse { status: "error", message }
    }
}

/// The answer to a request that published a page.
#[derive(Debug)]
pub struct SuccessResponse {
    pub status: &'static str,
    pub page_url: String,
}

impl SuccessResponse {
    /// A success answer that points to the published page.
    pub fn new(page_url: String) -> (r: Self)
        ensures
            r.status@ == "ok"@,
            r.page_url@ == page_url@,
    {
        SuccessResponse { status: "ok", page_url }
    }
}

/// What kept a request from publishing its page.
#[derive(Clone, Copy, Debug, PartialEq, Eq, Structural)]
pub enum Failure {
    /// The diff or snapshot asked for does not exist.
    NotFound,
    /// The diff payload is not made of objects.
    Malformed,
    /// The store settings could not be read.
    ConfigUnavailable,
    /// The store refused a call, could not be reached, or answered in a
    /// shape that does not read.
    PublishFailed,
}

/// The HTTP status of the answer to a failed request: the caller's side
/// (4xx) for a missing or malformed input, the service's side (5xx) for
/// the rest.
pub fn failure_status(failure: Failure) -> (r: u16)
    ensures
        r == match failure {
            Failure::NotFound => 404u16,
            Failure::Malformed => 422u16,
            Failure::ConfigUnavailable => 500u16,
            Failure::PublishFailed => 500u16,
        },
{
    match failure {
        Failure::NotFound => 404,
        Failure::Malformed => 422,
        Failure::ConfigUnavailable => 500,
        Failure::PublishFailed => 500,
    }
}

} // verus!
