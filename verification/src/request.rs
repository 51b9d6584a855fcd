//! The parameters of a load test and their validation.
//!
//! Validation happens before any work: a request that fails it never
//! reaches the scheduler, and no request is sent for it.

use vstd::prelude::*;

verus! {

/// The parameters of one load-test run.
#[derive(Clone, Copy, Debug, PartialEq, Eq, Structural)]
pub struct LoadTestRequest {
    /// How many requests the run issues in total.
    pub total_requests: u64,
    /// The largest number of requests that may be outstanding at once.
    pub concurrency: u64,
}

/// Why a load test was refused before any work started.
#[derive(Clone, Copy, Debug, PartialEq, Eq, Structural)]
pub enum ValidationError {
    /// The total number of requests was zero.
    ZeroRequests,
    /// The concurrency limit was zero.
    ZeroConcurrency,
    /// No target endpoint was given.
    MissingTarget,
}

impl ValidationError {
    /// The sentence that tells a caller what was wrong.
    pub open spec fn text(self) -> Seq<char> {
        match self {
            ValidationError::ZeroRequests => "the number of requests must be at least 1"@,
            ValidationError::ZeroConcurrency => "the concurrency must be at least 1"@,
            ValidationError::MissingTarget => "the target endpoint is missing"@,
        }
    }

    /// A sentence that tells a caller what was wrong.
    pub fn message(&self) -> (message: &'static str)
        ensures
            message@ == self.text(),
    {
        match self {
            ValidationError::ZeroRequests => "the number of requests must be at least 1",
            ValidationError::ZeroConcurrency => "the concurrency must be at least 1",
            ValidationError::MissingTarget => "the target endpoint is missing",
        }
    }
}

/// The error that validation reports for the given input, if any. The
/// total is examined first, then the concurrency, then the target, which
/// is missing where it is empty.
pub open spec fn rejection(total_requests: u64, concurrency: u64, target: Seq<char>) -> Option<
    ValidationError,
> {
    if total_requests == 0 {
        Some(ValidationError::ZeroRequests)
    } else if concurrency == 0 {
        Some(ValidationError::ZeroConcurrency)
    } else if target.len() == 0 {
        Some(ValidationError::MissingTarget)
    } else {
        None
    }
}

impl LoadTestRequest {
    /// A request is valid when it asks for at least one request and allows
    /// at least one to be outstanding.
    pub open spec fn valid(self) -> bool {
        self.total_requests >= 1 && self.concurrency >= 1
    }
}

/// Checks the input of a run and, where it is acceptable, returns it as a
/// request.
pub fn validate(total_requests: u64, concurrency: u64, target: &str) -> (result: Result<
    LoadTestRequest,
    ValidationError,
>)
    ensures
        match rejection(total_requests, concurrency, target@) {
            Some(error) => result == Err::<LoadTestRequest, ValidationError>(error),
            None => result == Ok::<LoadTestRequest, ValidationError>(
                LoadTestRequest { total_requests, concurrency },
            ),
        },
        result is Ok ==> result->Ok_0.valid(),
{
    if total_requests == 0 {
        Err(ValidationError::ZeroRequests)
    } else if concurrency == 0 {
        Err(ValidationError::ZeroConcurrency)
    } else if target.is_empty() {
        Err(ValidationError::MissingTarget)
    } else {
        Ok(LoadTestRequest { total_requests, concurrency })
    }
}

/// A run is refused exactly when it asks for no request, allows none to
/// be outstanding, or names no target; whoever asks for no request or
/// allows none outstanding is refused whatever the target.
pub proof fn lemma_zero_is_rejected(total_requests: u64, concurrency: u64, target: Seq<char>)
    ensures
        rejection(total_requests, concurrency, target) is Some <==> (total_requests == 0
            || concurrency == 0 || target.len() == 0),
        total_requests == 0 || concurrency == 0 ==> rejection(total_requests, concurrency, target)
            is Some && rejection(total_requests, concurrency, target) != Some(
            ValidationError::MissingTarget,
        ),
{
}

} // verus!
