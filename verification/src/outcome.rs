//! What became of one request: the transport's reply, and its
//! classification as a success or a failure.
//!
//! Policy: a request succeeds when any response arrives, whatever its
//! status code. Only a transport fault, where no response could be had,
//! is a failure.

use vstd::prelude::*;
use crate::elapsed::{millis, whole_millis};

verus! {

/// Why no response could be had.
#[derive(Clone, Copy, Debug, PartialEq, Eq, Structural)]
pub enum TransportFault {
    /// The connection could not be made.
    Connect,
    /// No answer came in time.
    Timeout,
    /// The secure channel could not be set up.
    Tls,
    /// The host name did not resolve.
    Dns,
    /// The request was handed out, but the transport returned nothing for
    /// it.
    Aborted,
    /// Any other fault below the level of a response.
    Other,
}

/// What the transport returned for one request.
#[derive(Clone, Copy, Debug, PartialEq, Eq, Structural)]
pub enum TransportReply {
    /// A response arrived, with this status code.
    Response { status: u16 },
    /// No response arrived.
    Fault { kind: TransportFault },
}

/// One request as the transport saw it: the reply, and the time from just
/// before dispatch to just after the reply, in nanoseconds.
#[derive(Clone, Copy, Debug, PartialEq, Eq, Structural)]
pub struct Exchange {
    pub reply: TransportReply,
    pub elapsed_nanos: u128,
}

/// The classified result of one request.
#[derive(Clone, Copy, Debug, PartialEq, Eq, Structural)]
pub enum RequestOutcome {
    /// A response arrived after `elapsed_ms` milliseconds.
    Success { elapsed_ms: u64 },
    /// The transport failed after `elapsed_ms` milliseconds.
    Failure { elapsed_ms: u64, kind: TransportFault },
}

impl RequestOutcome {
    /// Whether the request counts as successful.
    pub open spec fn succeeded(self) -> bool {
        self is Success
    }

    /// The time the request took, in milliseconds.
    pub open spec fn latency(self) -> u64 {
        match self {
            RequestOutcome::Success { elapsed_ms } => elapsed_ms,
            RequestOutcome::Failure { elapsed_ms, .. } => elapsed_ms,
        }
    }

    /// Whether the request counts as successful.
    pub fn is_success(&self) -> (yes: bool)
        ensures
            yes == self.succeeded(),
    {
        match self {
            RequestOutcome::Success { .. } => true,
            RequestOutcome::Failure { .. } => false,
        }
    }

    /// The time the request took, in milliseconds.
    pub fn elapsed_ms(&self) -> (ms: u64)
        ensures
            ms == self.latency(),
    {
        match self {
            RequestOutcome::Success { elapsed_ms } => *elapsed_ms,
            RequestOutcome::Failure { elapsed_ms, .. } => *elapsed_ms,
        }
    }
}

/// The outcome that an exchange is classified as.
pub open spec fn classified(exchange: Exchange) -> RequestOutcome {
    match exchange.reply {
        TransportReply::Response { .. } => RequestOutcome::Success {
            elapsed_ms: millis(exchange.elapsed_nanos),
        },
        TransportReply::Fault { kind } => RequestOutcome::Failure {
            elapsed_ms: millis(exchange.elapsed_nanos),
            kind,
        },
    }
}

/// Classifies one exchange. Any response is a success, whatever its
/// status; a transport fault is a failure that keeps its kind. Faults are
/// turned into data here, so that one failed request never ends a run.
pub fn classify(exchange: Exchange) -> (outcome: RequestOutcome)
    ensures
        outcome == classified(exchange),
{
    let elapsed_ms = whole_millis(exchange.elapsed_nanos);
    match exchange.reply {
        TransportReply::Response { .. } => RequestOutcome::Success { elapsed_ms },
        TransportReply::Fault { kind } => RequestOutcome::Failure { elapsed_ms, kind },
    }
}

/// Classification looks at the reply alone: a response of any status is a
/// success, a fault of any kind a failure.
pub proof fn lemma_success_means_response(exchange: Exchange)
    ensures
        classified(exchange).succeeded() <==> exchange.reply is Response,
        classified(exchange).latency() == millis(exchange.elapsed_nanos),
{
}

} // verus!
