//! The report of a run, in the shape in which it leaves the library.

use vstd::prelude::*;
use crate::aggregate::{aggregate_of, lemma_mean_within_extrema, throughput, Aggregate, Ratio};
use crate::elapsed::{millis, whole_millis};
use crate::outcome::RequestOutcome;
use crate::recorder::{lemma_all_failed, Tally};
use crate::stats::{lemma_percentile_ends, lemma_percentile_monotone, lemma_statistics_ignore_order};

verus! {

/// The result of one load-test run. Durations and latencies are in
/// milliseconds; the two rates are exact fractions.
#[derive(Clone, Copy, Debug, PartialEq, Eq, Structural)]
pub struct LoadTestResult {
    pub total_requests: u64,
    pub successful_requests: u64,
    pub failed_requests: u64,
    pub total_duration_ms: u64,
    pub average_response_ms: Ratio,
    pub requests_per_second: Ratio,
    pub min_ms: u64,
    pub max_ms: u64,
    pub p95_ms: u64,
    pub p99_ms: u64,
}

/// The report that presents an aggregate: every statistic as it is, and
/// the time of the run in milliseconds.
pub open spec fn formatted(aggregate: Aggregate) -> LoadTestResult {
    LoadTestResult {
        total_requests: aggregate.total_requests,
        successful_requests: aggregate.successes,
        failed_requests: aggregate.failures,
        total_duration_ms: millis(aggregate.elapsed_nanos),
        average_response_ms: aggregate.average_response_ms,
        requests_per_second: aggregate.requests_per_second,
        min_ms: aggregate.min_ms,
        max_ms: aggregate.max_ms,
        p95_ms: aggregate.p95_ms,
        p99_ms: aggregate.p99_ms,
    }
}

/// The report of a run that recorded `tally` for `total_requests`
/// requests in `elapsed_nanos` nanoseconds.
pub open spec fn report_of(tally: Tally, total_requests: u64, elapsed_nanos: u128) -> LoadTestResult {
    formatted(aggregate_of(tally, total_requests, elapsed_nanos))
}

/// Presents an aggregate as a report.
pub fn format_report(aggregate: &Aggregate) -> (report: LoadTestResult)
    ensures
        report == formatted(*aggregate),
{
    LoadTestResult {
        total_requests: aggregate.total_requests,
        successful_requests: aggregate.successes,
        failed_requests: aggregate.failures,
        total_duration_ms: whole_millis(aggregate.elapsed_nanos),
        average_response_ms: aggregate.average_response_ms,
        requests_per_second: aggregate.requests_per_second,
        min_ms: aggregate.min_ms,
        max_ms: aggregate.max_ms,
        p95_ms: aggregate.p95_ms,
        p99_ms: aggregate.p99_ms,
    }
}

/// The counts of a report are those of the tally, and where every request
/// was recorded they add up to the total.
pub proof fn lemma_report_counts(tally: Tally, total_requests: u64, elapsed_nanos: u128)
    requires
        tally.recorded() == total_requests,
    ensures
        ({
            let report = report_of(tally, total_requests, elapsed_nanos);
            &&& report.total_requests == total_requests
            &&& report.successful_requests == tally.successes()
            &&& report.failed_requests == tally.failures
            &&& report.successful_requests + report.failed_requests == report.total_requests
        }),
{
}

/// Where at least one request succeeded, the mean latency of the report
/// lies between its smallest and its largest latency, and so do the two
/// percentiles, the 95th not above the 99th.
pub proof fn lemma_report_mean_within_extrema(
    tally: Tally,
    total_requests: u64,
    elapsed_nanos: u128,
)
    requires
        0 < tally.successes() <= u64::MAX,
    ensures
        ({
            let report = report_of(tally, total_requests, elapsed_nanos);
            &&& report.average_response_ms.at_least(report.min_ms as int)
            &&& report.average_response_ms.at_most(report.max_ms as int)
            &&& report.min_ms <= report.p95_ms <= report.p99_ms <= report.max_ms
        }),
{
    lemma_mean_within_extrema(tally.samples);
    lemma_percentile_monotone(tally.samples, 0, 95);
    lemma_percentile_monotone(tally.samples, 95, 99);
    lemma_percentile_monotone(tally.samples, 99, 100);
    lemma_percentile_ends(tally.samples);
}

/// The report of a run in which every request failed: all requests are
/// counted as failed, the mean latency and every other latency statistic
/// is zero, and the throughput is still that of the requests over the
/// time taken.
pub proof fn lemma_all_failed_report(
    outcomes: Seq<RequestOutcome>,
    total_requests: u64,
    elapsed_nanos: u128,
)
    requires
        outcomes.len() == total_requests,
        forall|i: int| 0 <= i < outcomes.len() ==> !outcomes[i].succeeded(),
    ensures
        ({
            let report = report_of(Tally::of(outcomes), total_requests, elapsed_nanos);
            &&& report.failed_requests == report.total_requests
            &&& report.successful_requests == 0
            &&& report.average_response_ms == Ratio::zero()
            &&& report.requests_per_second == throughput(total_requests, elapsed_nanos)
            &&& report.min_ms == 0 && report.max_ms == 0
            &&& report.p95_ms == 0 && report.p99_ms == 0
        }),
{
    lemma_all_failed(outcomes);
}

/// The report does not depend on the order in which the outcomes
/// arrived: two tallies with the same failures and the same latencies,
/// each as often as in the other, have the same report.
pub proof fn lemma_report_ignores_order(
    first: Tally,
    second: Tally,
    total_requests: u64,
    elapsed_nanos: u128,
)
    requires
        first.failures == second.failures,
        first.samples.to_multiset() == second.samples.to_multiset(),
    ensures
        report_of(first, total_requests, elapsed_nanos) == report_of(
            second,
            total_requests,
            elapsed_nanos,
        ),
{
    lemma_statistics_ignore_order(first.samples, second.samples);
}

} // verus!
