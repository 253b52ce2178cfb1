//! Errors shared by the library's operations.

use vstd::prelude::*;

verus! {

/// Application-level error kinds.
#[derive(Debug, Clone, PartialEq, Eq)]
pub enum AppError {
    /// The request is not acceptable in the current state.
    InvalidInput(String),
    /// The named entity does not exist.
    NotFound(String),
    /// Something failed inside the service.
    Internal(String),
    /// The upstream API answered 429.
    RateLimited,
    /// The upstream API is overloaded (5xx).
    ServerOverload(String),
}

/// The message of a refused status transition: `Cannot transition from A to B`.
pub open spec fn transition_message(from: Seq<char>, to: Seq<char>) -> Seq<char> {
    "Cannot transition from "@ + from + " to "@ + to
}

/// Builds the message of a refused status transition.
pub fn transition_error(from: &str, to: &str) -> (r: AppError)
    ensures
        r matches AppError::InvalidInput(m) && m@ == transition_message(from@, to@),
{
    let mut s = String::from_str("Cannot transition from ");
    s.append(from);
    s.append(" to ");
    s.append(to);
    AppError::InvalidInput(s)
}

} // verus!
