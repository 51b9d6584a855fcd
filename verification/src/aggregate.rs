//! The aggregator: reduces what a recorder holds, and the time the whole
//! run took, to summary statistics.
//!
//! The mean and the throughput are exact fractions. A run without a
//! single success is no error: its latency statistics are all zero, and
//! the count of failures tells what happened.

use vstd::prelude::*;
use crate::elapsed::NANOS_PER_SECOND;
use crate::recorder::{LatencyRecorder, Tally};
use crate::stats::{
    greatest, least, lemma_mean_between_extrema, lemma_percentile_ends,
    lemma_percentile_monotone, lemma_statistics_ignore_order, lemma_total_bounded, percentile,
    percentile_of_sorted, sort_samples, total, lemma_in_order,
};

verus! {

/// An exact fraction, `numerator / denominator`. It is not reduced to
/// lowest terms. A zero denominator stands for a rate over no time at
/// all.
#[derive(Clone, Copy, Debug, PartialEq, Eq, Structural)]
pub struct Ratio {
    pub numerator: u128,
    pub denominator: u128,
}

impl Ratio {
    /// The fraction `0 / 1`.
    pub open spec fn zero() -> Ratio {
        Ratio { numerator: 0, denominator: 1 }
    }

    /// Whether the fraction is at least `bound`.
    pub open spec fn at_least(self, bound: int) -> bool {
        self.denominator > 0 && bound * self.denominator <= self.numerator
    }

    /// Whether the fraction is at most `bound`.
    pub open spec fn at_most(self, bound: int) -> bool {
        self.denominator > 0 && self.numerator <= bound * self.denominator
    }
}

/// The mean of the samples, or zero where there are none.
pub open spec fn mean(samples: Seq<u64>) -> Ratio {
    if samples.len() == 0 {
        Ratio::zero()
    } else {
        Ratio { numerator: total(samples) as u128, denominator: samples.len() as u128 }
    }
}

/// Requests per second: the number of requests over the seconds that the
/// run took, with both scaled to nanoseconds.
pub open spec fn throughput(total_requests: u64, elapsed_nanos: u128) -> Ratio {
    Ratio {
        numerator: (total_requests * NANOS_PER_SECOND) as u128,
        denominator: elapsed_nanos,
    }
}

/// The summary of a finished run. Latencies are in milliseconds.
#[derive(Clone, Copy, Debug, PartialEq, Eq, Structural)]
pub struct Aggregate {
    pub total_requests: u64,
    pub successes: u64,
    pub failures: u64,
    pub elapsed_nanos: u128,
    pub average_response_ms: Ratio,
    pub requests_per_second: Ratio,
    pub min_ms: u64,
    pub max_ms: u64,
    pub p95_ms: u64,
    pub p99_ms: u64,
}

/// The aggregate of a tally: the counts as they are, the mean, extrema
/// and the 95th and 99th nearest-rank percentiles of the latencies of the
/// successes, and the throughput over the whole run.
pub open spec fn aggregate_of(tally: Tally, total_requests: u64, elapsed_nanos: u128) -> Aggregate {
    Aggregate {
        total_requests,
        successes: tally.successes() as u64,
        failures: tally.failures as u64,
        elapsed_nanos,
        average_response_ms: mean(tally.samples),
        requests_per_second: throughput(total_requests, elapsed_nanos),
        min_ms: least(tally.samples),
        max_ms: greatest(tally.samples),
        p95_ms: percentile(tally.samples, 95),
        p99_ms: percentile(tally.samples, 99),
    }
}

/// With at least one sample, the mean lies between the smallest and the
/// largest sample.
pub proof fn lemma_mean_within_extrema(samples: Seq<u64>)
    requires
        0 < samples.len() <= u64::MAX,
    ensures
        mean(samples).at_least(least(samples) as int),
        mean(samples).at_most(greatest(samples) as int),
{
    lemma_mean_between_extrema(samples);
    lemma_total_bounded(samples);
    assert(samples.len() * u64::MAX <= u128::MAX) by (nonlinear_arith)
        requires
            samples.len() <= u64::MAX,
    ;
}

/// Without a sample every latency statistic is zero, while the
/// throughput is still that of the requests over the time taken.
pub proof fn lemma_no_samples(failures: nat, total_requests: u64, elapsed_nanos: u128)
    ensures
        ({
            let tally = Tally { samples: Seq::empty(), failures };
            let aggregate = aggregate_of(tally, total_requests, elapsed_nanos);
            &&& aggregate.successes == 0
            &&& aggregate.average_response_ms == Ratio::zero()
            &&& aggregate.min_ms == 0
            &&& aggregate.max_ms == 0
            &&& aggregate.p95_ms == 0
            &&& aggregate.p99_ms == 0
            &&& aggregate.requests_per_second == throughput(total_requests, elapsed_nanos)
        }),
{
}

/// Reduces a recorder and the time the run took to an aggregate.
pub fn aggregate(recorder: &LatencyRecorder, total_requests: u64, elapsed_nanos: u128) -> (result:
    Aggregate)
    requires
        recorder.wf(),
    ensures
        result == aggregate_of(recorder@, total_requests, elapsed_nanos),
        recorder@.successes() > 0 ==> result.average_response_ms.at_least(result.min_ms as int)
            && result.average_response_ms.at_most(result.max_ms as int),
        result.min_ms <= result.p95_ms <= result.p99_ms <= result.max_ms,
{
    proof {
        recorder.lemma_recorded_fits();
    }
    let successes = recorder.success_count();
    let failures = recorder.failure_count();
    let sorted = sort_samples(recorder.samples());
    proof {
        // The percentiles are picked from the sorted copy, which holds the
        // samples of the recorder in another order.
        lemma_in_order(recorder@.samples);
        lemma_statistics_ignore_order(sorted@, recorder@.samples);
        lemma_percentile_monotone(recorder@.samples, 0, 95);
        lemma_percentile_monotone(recorder@.samples, 95, 99);
        lemma_percentile_monotone(recorder@.samples, 99, 100);
        lemma_percentile_ends(recorder@.samples);
        if recorder@.successes() > 0 {
            lemma_mean_within_extrema(recorder@.samples);
        }
    }
    let p95_ms = percentile_of_sorted(&sorted, 95);
    let p99_ms = percentile_of_sorted(&sorted, 99);
    let average_response_ms = if successes == 0 {
        Ratio { numerator: 0, denominator: 1 }
    } else {
        Ratio { numerator: recorder.sum_ms(), denominator: successes as u128 }
    };
    assert(total_requests * NANOS_PER_SECOND <= u128::MAX) by (nonlinear_arith)
        requires
            total_requests <= u64::MAX,
            NANOS_PER_SECOND == 1_000_000_000,
    ;
    let requests_per_second = Ratio {
        numerator: (total_requests as u128) * NANOS_PER_SECOND,
        denominator: elapsed_nanos,
    };
    Aggregate {
        total_requests,
        successes,
        failures,
        elapsed_nanos,
        average_response_ms,
        requests_per_second,
        min_ms: recorder.min_ms(),
        max_ms: recorder.max_ms(),
        p95_ms,
        p99_ms,
    }
}

} // verus!
