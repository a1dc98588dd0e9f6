//! Errors that sending an event can end in.

use vstd::prelude::*;

verus! {

/// `reqwest::Error`: the failure that the HTTP transport reports when an
/// exchange could not be completed. The library carries such a value through
/// unread; nothing is claimed of what it holds.
#[verifier::external_type_specification]
#[verifier::external_body]
pub struct ExTransportError(reqwest::Error);

/// Why an event was not delivered.
#[derive(Debug)]
pub enum SendError {
    /// The event was refused before any request was made, or the server
    /// answered with a status other than 200. The text says which.
    InvalidRequest(String),
    /// The transport failed to complete the exchange.
    RequestError(reqwest::Error),
}

impl From<reqwest::Error> for SendError {
    /// The transport's failure as the error of sending.
    fn from(failure: reqwest::Error) -> (error: SendError) {
        SendError::RequestError(failure)
    }
}

impl vstd::std_specs::convert::FromSpecImpl<reqwest::Error> for SendError {
    open spec fn obeys_from_spec() -> bool {
        true
    }

    open spec fn from_spec(failure: reqwest::Error) -> SendError {
        SendError::RequestError(failure)
    }
}

} // verus!
