//! The latency recorder: the one place where the outcomes of a run
//! accumulate.
//!
//! The recorder keeps the latency of every success and counts the
//! failures. It is an append-only tally: recording never removes or
//! changes what was recorded before.

use vstd::prelude::*;
use crate::outcome::RequestOutcome;
use crate::stats::{greatest, least, lemma_total_bounded, total};

verus! {

/// What a recorder holds, as a mathematical value: the latencies of the
/// successes in the order they were recorded, and the number of failures.
pub struct Tally {
    pub samples: Seq<u64>,
    pub failures: nat,
}

impl Tally {
    /// The tally before anything was recorded.
    pub open spec fn empty() -> Tally {
        Tally { samples: Seq::empty(), failures: 0 }
    }

    /// The number of successes.
    pub open spec fn successes(self) -> nat {
        self.samples.len()
    }

    /// The number of outcomes recorded, successes and failures together.
    pub open spec fn recorded(self) -> nat {
        self.samples.len() + self.failures
    }

    /// The tally after one more outcome: a success adds its latency, a
    /// failure adds one to the count of failures.
    pub open spec fn record(self, outcome: RequestOutcome) -> Tally {
        match outcome {
            RequestOutcome::Success { elapsed_ms } => Tally {
                samples: self.samples.push(elapsed_ms),
                failures: self.failures,
            },
            RequestOutcome::Failure { .. } => Tally {
                samples: self.samples,
                failures: self.failures + 1,
            },
        }
    }

    /// The tally after a sequence of outcomes, recorded first to last.
    pub open spec fn record_all(self, outcomes: Seq<RequestOutcome>) -> Tally
        decreases outcomes.len(),
    {
        if outcomes.len() == 0 {
            self
        } else {
            self.record_all(outcomes.drop_last()).record(outcomes.last())
        }
    }

    /// The tally of a whole run, from its outcomes.
    pub open spec fn of(outcomes: Seq<RequestOutcome>) -> Tally {
        Tally::empty().record_all(outcomes)
    }
}

/// Accumulates the outcomes of one run.
pub struct LatencyRecorder {
    samples: Vec<u64>,
    sum_ms: u128,
    min_ms: u64,
    max_ms: u64,
    failures: u64,
}

impl View for LatencyRecorder {
    type V = Tally;

    closed spec fn view(&self) -> Tally {
        Tally { samples: self.samples@, failures: self.failures as nat }
    }
}

impl LatencyRecorder {
    /// The running sum and extrema agree with the samples, and the number
    /// of recorded outcomes fits the counters.
    pub closed spec fn wf(&self) -> bool {
        &&& self.sum_ms == total(self.samples@)
        &&& self.min_ms == least(self.samples@)
        &&& self.max_ms == greatest(self.samples@)
        &&& self.samples@.len() + self.failures <= u64::MAX
    }

    /// A well-formed recorder never holds more outcomes than a counter
    /// can tell.
    pub proof fn lemma_recorded_fits(&self)
        requires
            self.wf(),
        ensures
            self@.recorded() <= u64::MAX,
    {
    }

    /// A recorder with nothing recorded.
    pub fn new() -> (recorder: LatencyRecorder)
        ensures
            recorder.wf(),
            recorder@ == Tally::empty(),
    {
        LatencyRecorder { samples: Vec::new(), sum_ms: 0, min_ms: 0, max_ms: 0, failures: 0 }
    }

    /// Records one outcome.
    pub fn record(&mut self, outcome: RequestOutcome)
        requires
            old(self).wf(),
            old(self)@.recorded() < u64::MAX,
        ensures
            final(self).wf(),
            final(self)@ == old(self)@.record(outcome),
    {
        match outcome {
            RequestOutcome::Success { elapsed_ms } => {
                proof {
                    lemma_total_bounded(self.samples@);
                    assert(self.samples@.len() * u64::MAX + u64::MAX <= u128::MAX)
                        by (nonlinear_arith)
                        requires
                            self.samples@.len() < u64::MAX,
                    ;
                    assert(self.samples@.push(elapsed_ms).drop_last() =~= self.samples@);
                }
                let first = self.samples.len() == 0;
                self.sum_ms = self.sum_ms + elapsed_ms as u128;
                if first || elapsed_ms < self.min_ms {
                    self.min_ms = elapsed_ms;
                }
                if elapsed_ms > self.max_ms {
                    self.max_ms = elapsed_ms;
                }
                self.samples.push(elapsed_ms);
            },
            RequestOutcome::Failure { .. } => {
                self.failures = self.failures + 1;
            },
        }
    }

    /// The number of successes recorded.
    pub fn success_count(&self) -> (count: u64)
        requires
            self.wf(),
        ensures
            count == self@.successes(),
    {
        self.samples.len() as u64
    }

    /// The number of failures recorded.
    pub fn failure_count(&self) -> (count: u64)
        ensures
            count == self@.failures,
    {
        self.failures
    }

    /// The number of outcomes recorded.
    pub fn recorded(&self) -> (count: u64)
        requires
            self.wf(),
        ensures
            count == self@.recorded(),
    {
        self.samples.len() as u64 + self.failures
    }

    /// The latencies of the successes, in the order they were recorded.
    pub fn samples(&self) -> (samples: &Vec<u64>)
        ensures
            samples@ == self@.samples,
    {
        &self.samples
    }

    /// The sum of the latencies of the successes.
    pub fn sum_ms(&self) -> (sum: u128)
        requires
            self.wf(),
        ensures
            sum == total(self@.samples),
    {
        self.sum_ms
    }

    /// The smallest latency of a success; zero where there is none.
    pub fn min_ms(&self) -> (min: u64)
        requires
            self.wf(),
        ensures
            min == least(self@.samples),
    {
        self.min_ms
    }

    /// The largest latency of a success; zero where there is none.
    pub fn max_ms(&self) -> (max: u64)
        requires
            self.wf(),
        ensures
            max == greatest(self@.samples),
    {
        self.max_ms
    }
}

/// Every outcome is counted exactly once, as a success or as a failure.
pub proof fn lemma_every_outcome_counted(outcomes: Seq<RequestOutcome>)
    ensures
        Tally::of(outcomes).recorded() == outcomes.len(),
        Tally::of(outcomes).successes() + Tally::of(outcomes).failures == outcomes.len(),
    decreases outcomes.len(),
{
    if outcomes.len() > 0 {
        lemma_every_outcome_counted(outcomes.drop_last());
    }
}

/// The counts of a run depend only on which requests succeeded, not on how
/// long any of them took: two runs whose outcomes agree, request by
/// request, on success or failure have the same counts.
pub proof fn lemma_counts_follow_classification(
    first: Seq<RequestOutcome>,
    second: Seq<RequestOutcome>,
)
    requires
        first.len() == second.len(),
        forall|i: int| 0 <= i < first.len() ==> first[i].succeeded() == second[i].succeeded(),
    ensures
        Tally::of(first).successes() == Tally::of(second).successes(),
        Tally::of(first).failures == Tally::of(second).failures,
    decreases first.len(),
{
    if first.len() > 0 {
        lemma_counts_follow_classification(first.drop_last(), second.drop_last());
    }
}

/// Where every request failed, no latency is recorded and the failures
/// are as many as the requests.
pub proof fn lemma_all_failed(outcomes: Seq<RequestOutcome>)
    requires
        forall|i: int| 0 <= i < outcomes.len() ==> !outcomes[i].succeeded(),
    ensures
        Tally::of(outcomes).samples == Seq::<u64>::empty(),
        Tally::of(outcomes).failures == outcomes.len(),
    decreases outcomes.len(),
{
    if outcomes.len() > 0 {
        lemma_all_failed(outcomes.drop_last());
    }
}

} // verus!
