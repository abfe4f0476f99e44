//! The error taxonomy of the game core.
//!
//! All failures are ordinary returned values; no verified function panics.

use vstd::prelude::*;
use crate::grading::GradingError;

verus! {

/// An error surfaced by the game operations.
#[derive(Debug, PartialEq, Eq, Clone)]
pub enum AppError {
    /// The session id is not registered, or the session already ended.
    NoSession,
    /// The candidate list was empty, or every candidate was filtered out.
    NoCandidates,
    /// The call to the candidate source failed; the message describes how.
    UpstreamUnavailable(String),
    /// The guess could not be graded; see [`GradingError`].
    Grading(GradingError),
}

impl AppError {
    /// The HTTP status code this error maps to: 404 for a missing session,
    /// 500 for an upstream failure, 400 otherwise.
    pub fn status_code(&self) -> (c: u16)
        ensures
            self is NoSession ==> c == 404,
            self is UpstreamUnavailable ==> c == 500,
            self is NoCandidates ==> c == 400,
            self is Grading ==> c == 400,
    {
        match self {
            AppError::NoSession => 404,
            AppError::UpstreamUnavailable(_) => 500,
            AppError::NoCandidates => 400,
            AppError::Grading(_) => 400,
        }
    }
}

} // verus!
