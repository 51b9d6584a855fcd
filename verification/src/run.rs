//! One load-test run as a state machine.
//!
//! The library decides; the caller does the outside work. A run is
//! started from validated input. The caller then asks for the next wave,
//! sends its requests all at once, hands every outcome back, and asks
//! again. When every request has its outcome the run is complete and can
//! be turned into a report.
//!
//! ```text
//! start -> next_wave -> record (once for each request of the wave) -> next_wave -> ... -> finish
//! ```
//!
//! No wave is handed out while an outcome of the wave before it is
//! missing, so that never more than `concurrency` requests are
//! outstanding.

use vstd::prelude::*;
use crate::aggregate::aggregate;
use crate::outcome::{RequestOutcome, TransportFault};
use crate::recorder::{LatencyRecorder, Tally};
use crate::report::{format_report, report_of, LoadTestResult};
use crate::request::{rejection, validate, LoadTestRequest, ValidationError};
use crate::schedule::{
    dispatched_after, dispatched_by, lemma_count_brackets_total, lemma_wave_size,
    lemma_waves_cover, nth_wave, wave_at, wave_count, Wave,
};

verus! {

/// A load-test run in progress.
pub struct LoadTest {
    request: LoadTestRequest,
    waves_started: u64,
    recorder: LatencyRecorder,
}

impl LoadTest {
    /// The request that the run was started with.
    pub closed spec fn request(&self) -> LoadTestRequest {
        self.request
    }

    /// The number of waves handed out so far.
    pub closed spec fn waves_started(&self) -> nat {
        self.waves_started as nat
    }

    /// What has been recorded so far.
    pub closed spec fn tally(&self) -> Tally {
        self.recorder@
    }

    /// The number of requests handed out so far.
    pub open spec fn dispatched(&self) -> nat {
        dispatched_after(self.request(), self.waves_started())
    }

    /// The number of requests handed out whose outcome is still missing.
    pub open spec fn in_flight(&self) -> int {
        self.dispatched() - self.tally().recorded()
    }

    /// Whether every request of the run has its outcome.
    pub open spec fn complete(&self) -> bool {
        self.tally().recorded() == self.request().total_requests
    }

    /// The invariant of a run: its request is valid, no outcome was
    /// recorded that no request was handed out for, and every wave but
    /// the one handed out last has all its outcomes.
    pub closed spec fn wf(&self) -> bool {
        &&& self.request.valid()
        &&& self.recorder.wf()
        &&& self.waves_started <= wave_count(self.request)
        &&& self.recorder@.recorded() <= dispatched_after(self.request, self.waves_started as nat)
        &&& self.waves_started > 0 ==> dispatched_after(
            self.request,
            (self.waves_started - 1) as nat,
        ) <= self.recorder@.recorded()
    }

    /// At every moment of a run: no more requests are outstanding than
    /// the concurrency allows, no more were handed out than the run has,
    /// no more recorded than handed out, and a wave is left to hand out
    /// exactly while requests are. A complete run has handed out every
    /// request and has none outstanding.
    pub proof fn lemma_bounds(&self)
        requires
            self.wf(),
        ensures
            self.request().valid(),
            self.waves_started() <= wave_count(self.request()),
            0 <= self.in_flight() <= self.request().concurrency,
            self.tally().recorded() <= self.dispatched() <= self.request().total_requests,
            self.waves_started() < wave_count(self.request()) <==> self.dispatched()
                < self.request().total_requests,
            self.complete() ==> self.dispatched() == self.request().total_requests
                && self.in_flight() == 0,
    {
        lemma_waves_cover(self.request, self.waves_started as nat);
        if self.waves_started > 0 {
            lemma_wave_size(self.request, (self.waves_started - 1) as nat);
        }
    }

    /// Starts a run, or refuses the input. Nothing has been handed out or
    /// recorded when a run starts.
    pub fn start(total_requests: u64, concurrency: u64, target: &str) -> (result: Result<
        LoadTest,
        ValidationError,
    >)
        ensures
            match rejection(total_requests, concurrency, target@) {
                Some(error) => result matches Err(e) && e == error,
                None => result matches Ok(run) && run.wf() && run.request() == (LoadTestRequest {
                    total_requests,
                    concurrency,
                }) && run.waves_started() == 0 && run.tally() == Tally::empty(),
            },
    {
        match validate(total_requests, concurrency, target) {
            Err(error) => Err(error),
            Ok(request) => {
                proof {
                    lemma_waves_cover(request, 0);
                }
                Ok(LoadTest { request, waves_started: 0, recorder: LatencyRecorder::new() })
            },
        }
    }

    /// Hands out the next wave. There is none while an outcome of the
    /// last wave is missing, and none once the run is complete; the run
    /// is then left as it was.
    pub fn next_wave(&mut self) -> (wave: Option<Wave>)
        requires
            old(self).wf(),
        ensures
            final(self).wf(),
            final(self).request() == old(self).request(),
            final(self).tally() == old(self).tally(),
            wave is Some <==> old(self).in_flight() == 0 && !old(self).complete(),
            wave matches Some(w) ==> w == wave_at(old(self).request(), old(self).waves_started())
                && final(self).waves_started() == old(self).waves_started() + 1
                && final(self).in_flight() == w.size,
            wave is None ==> final(self).waves_started() == old(self).waves_started(),
    {
        proof {
            self.lemma_bounds();
            self.recorder.lemma_recorded_fits();
        }
        let recorded = self.recorder.recorded();
        let dispatched = dispatched_by(&self.request, self.waves_started);
        if recorded < dispatched {
            return None;
        }
        proof {
            lemma_count_brackets_total(self.request);
            lemma_waves_cover(self.request, self.waves_started as nat);
        }
        let wave = nth_wave(&self.request, self.waves_started);
        if wave.is_some() {
            proof {
                lemma_wave_size(self.request, self.waves_started as nat);
            }
            self.waves_started = self.waves_started + 1;
        }
        wave
    }

    /// Records the outcome of one outstanding request. Where no request
    /// is outstanding the outcome is refused and the run left as it was.
    pub fn record(&mut self, outcome: RequestOutcome) -> (accepted: bool)
        requires
            old(self).wf(),
        ensures
            final(self).wf(),
            final(self).request() == old(self).request(),
            final(self).waves_started() == old(self).waves_started(),
            accepted == (old(self).in_flight() > 0),
            final(self).tally() == if accepted {
                old(self).tally().record(outcome)
            } else {
                old(self).tally()
            },
    {
        proof {
            self.lemma_bounds();
            self.recorder.lemma_recorded_fits();
        }
        let recorded = self.recorder.recorded();
        let dispatched = dispatched_by(&self.request, self.waves_started);
        if recorded < dispatched {
            self.recorder.record(outcome);
            true
        } else {
            false
        }
    }

    /// Records every outstanding request as a failure of the given kind,
    /// with no time taken, and returns how many there were. A request that
    /// was handed out is thus never dropped from the counts, even where
    /// its outcome never arrives.
    pub fn fail_outstanding(&mut self, kind: TransportFault) -> (failed: u64)
        requires
            old(self).wf(),
        ensures
            final(self).wf(),
            final(self).request() == old(self).request(),
            final(self).waves_started() == old(self).waves_started(),
            failed == old(self).in_flight(),
            final(self).in_flight() == 0,
            final(self).tally().samples == old(self).tally().samples,
            final(self).tally().failures == old(self).tally().failures + failed,
    {
        proof {
            self.lemma_bounds();
        }
        let mut failed: u64 = 0;
        while self.outstanding() > 0
            invariant
                self.wf(),
                self.request() == old(self).request(),
                self.waves_started() == old(self).waves_started(),
                self.tally().samples == old(self).tally().samples,
                self.tally().failures == old(self).tally().failures + failed,
                failed + self.in_flight() == old(self).in_flight(),
                old(self).in_flight() <= u64::MAX,
            decreases self.in_flight(),
        {
            self.record(RequestOutcome::Failure { elapsed_ms: 0, kind });
            failed = failed + 1;
        }
        failed
    }

    /// The number of requests handed out whose outcome is still missing.
    pub fn outstanding(&self) -> (count: u64)
        requires
            self.wf(),
        ensures
            count == self.in_flight(),
    {
        proof {
            self.lemma_bounds();
            self.recorder.lemma_recorded_fits();
        }
        dispatched_by(&self.request, self.waves_started) - self.recorder.recorded()
    }

    /// Whether every request of the run has its outcome.
    pub fn is_complete(&self) -> (done: bool)
        requires
            self.wf(),
        ensures
            done == self.complete(),
    {
        proof {
            self.recorder.lemma_recorded_fits();
        }
        self.recorder.recorded() == self.request.total_requests
    }

    /// The report of a complete run.
    pub(crate) fn report(&self, elapsed_nanos: u128) -> (report: LoadTestResult)
        requires
            self.wf(),
            self.complete(),
        ensures
            report == report_of(self.tally(), self.request().total_requests, elapsed_nanos),
            report.total_requests == self.request().total_requests,
            report.successful_requests + report.failed_requests == report.total_requests,
            report.successful_requests > 0 ==> report.average_response_ms.at_least(
                report.min_ms as int,
            ) && report.average_response_ms.at_most(report.max_ms as int),
            report.min_ms <= report.p95_ms <= report.p99_ms <= report.max_ms,
    {
        proof {
            self.recorder.lemma_recorded_fits();
        }
        let summary = aggregate(&self.recorder, self.request.total_requests, elapsed_nanos);
        format_report(&summary)
    }

    /// Turns a complete run, and the time it took from start to end, into
    /// its report. A run that is not complete has no report.
    pub fn finish(&self, elapsed_nanos: u128) -> (report: Option<LoadTestResult>)
        requires
            self.wf(),
        ensures
            report == if self.complete() {
                Some(report_of(self.tally(), self.request().total_requests, elapsed_nanos))
            } else {
                None
            },
            report matches Some(r) ==> {
                &&& r.successful_requests + r.failed_requests == r.total_requests
                &&& r.successful_requests > 0 ==> r.average_response_ms.at_least(r.min_ms as int)
                    && r.average_response_ms.at_most(r.max_ms as int)
                &&& r.min_ms <= r.p95_ms <= r.p99_ms <= r.max_ms
            },
    {
        if self.is_complete() {
            Some(self.report(elapsed_nanos))
        } else {
            None
        }
    }
}

} // verus!
