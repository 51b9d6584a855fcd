//! A whole load test over a transport that is called wave by wave.
//!
//! The transport is a function that is handed the target and one wave.
//! It is to send the requests of that wave all at once, wait until each
//! has its reply, and return one exchange for each. What it does with a
//! wave is its own business; the schedule, the classification of the
//! replies, the counts and the report are decided here.

use vstd::prelude::*;
use crate::aggregate::Ratio;
use crate::outcome::{classified, classify, Exchange, TransportFault};
use crate::recorder::Tally;
use crate::report::{report_of, LoadTestResult};
use crate::request::{rejection, LoadTestRequest, ValidationError};
use crate::run::LoadTest;
use crate::schedule::{wave_at, wave_count, Wave};

verus! {

/// The transport never has a response: whatever it returns for a wave,
/// every exchange in it is a fault.
pub open spec fn never_answers<D: Fn(&str, Wave) -> Vec<Exchange>>(dispatch: D, target: &str) -> bool {
    forall|wave: Wave, exchanges: Vec<Exchange>, i: int|
        #![trigger call_ensures(dispatch, (target, wave), exchanges), exchanges@[i]]
        call_ensures(dispatch, (target, wave), exchanges) && 0 <= i < exchanges@.len()
            ==> exchanges@[i].reply is Fault
}

/// The transport always has a response for every request: whatever it
/// returns for a wave, there is one exchange for each request of the
/// wave, and every one of them holds a response.
pub open spec fn always_answers<D: Fn(&str, Wave) -> Vec<Exchange>>(dispatch: D, target: &str) -> bool {
    &&& forall|wave: Wave, exchanges: Vec<Exchange>| #[trigger]
        call_ensures(dispatch, (target, wave), exchanges) ==> exchanges@.len() == wave.size
    &&& forall|wave: Wave, exchanges: Vec<Exchange>, i: int|
        #![trigger call_ensures(dispatch, (target, wave), exchanges), exchanges@[i]]
        call_ensures(dispatch, (target, wave), exchanges) && 0 <= i < exchanges@.len()
            ==> exchanges@[i].reply is Response
}

/// The time between two readings of the clock, and none where the clock
/// ran backwards.
pub open spec fn span(started: u128, ended: u128) -> u128 {
    if ended >= started {
        (ended - started) as u128
    } else {
        0
    }
}

/// The tally after the given exchanges have been classified and recorded,
/// first to last.
pub open spec fn record_exchanges(tally: Tally, exchanges: Seq<Exchange>) -> Tally
    decreases exchanges.len(),
{
    if exchanges.len() == 0 {
        tally
    } else {
        record_exchanges(tally, exchanges.drop_last()).record(classified(exchanges.last()))
    }
}

/// The exchanges of a batch that count for a wave of `size` requests: all
/// of them, or the first `size` where there are more.
pub open spec fn kept(size: nat, exchanges: Seq<Exchange>) -> Seq<Exchange> {
    if exchanges.len() <= size {
        exchanges
    } else {
        exchanges.take(size as int)
    }
}

/// The tally after one wave of `size` requests for which the transport
/// returned `exchanges`: the exchanges that count are classified and
/// recorded, and every request of the wave that is left without an
/// exchange is one more failure.
pub open spec fn record_wave(tally: Tally, size: nat, exchanges: Seq<Exchange>) -> Tally {
    let answered = kept(size, exchanges);
    let recorded = record_exchanges(tally, answered);
    Tally {
        samples: recorded.samples,
        failures: recorded.failures + (size - answered.len()) as nat,
    }
}

/// The tally after the first waves of a run, where `batches` holds what
/// the transport returned for each of them, in order.
pub open spec fn tally_of_waves(request: LoadTestRequest, batches: Seq<Vec<Exchange>>) -> Tally
    decreases batches.len(),
{
    if batches.len() == 0 {
        Tally::empty()
    } else {
        record_wave(
            tally_of_waves(request, batches.drop_last()),
            wave_at(request, (batches.len() - 1) as nat).size as nat,
            batches.last()@,
        )
    }
}

/// Each batch is something that the transport can return for the wave of
/// its index.
pub open spec fn returned_by<D: Fn(&str, Wave) -> Vec<Exchange>>(
    dispatch: D,
    target: &str,
    request: LoadTestRequest,
    batches: Seq<Vec<Exchange>>,
) -> bool {
    forall|i: int|
        0 <= i < batches.len() ==> call_ensures(
            dispatch,
            (target, wave_at(request, i as nat)),
            #[trigger] batches[i],
        )
}

/// `report` is the report of a run of `request` in which the transport
/// returned `batches`, one for each wave, and the clock read `started`
/// before the first wave and `ended` after the last.
pub open spec fn is_report_of_run<C: Fn() -> u128, D: Fn(&str, Wave) -> Vec<Exchange>>(
    clock: C,
    dispatch: D,
    target: &str,
    request: LoadTestRequest,
    report: LoadTestResult,
    batches: Seq<Vec<Exchange>>,
    started: u128,
    ended: u128,
) -> bool {
    &&& batches.len() == wave_count(request)
    &&& returned_by(dispatch, target, request, batches)
    &&& call_ensures(clock, (), started)
    &&& call_ensures(clock, (), ended)
    &&& report == report_of(
        tally_of_waves(request, batches),
        request.total_requests,
        span(started, ended),
    )
}

/// Two batches agree on which of their requests had a response.
pub open spec fn same_answers(first: Seq<Exchange>, second: Seq<Exchange>) -> bool {
    &&& first.len() == second.len()
    &&& forall|i: int|
        0 <= i < first.len() ==> (first[i].reply is Response <==> second[i].reply is Response)
}

/// The transport is steady: whatever it returns for one wave agrees on
/// which requests had a response. The times may differ.
pub open spec fn steady<D: Fn(&str, Wave) -> Vec<Exchange>>(dispatch: D, target: &str) -> bool {
    forall|wave: Wave, first: Vec<Exchange>, second: Vec<Exchange>|
        #![trigger call_ensures(dispatch, (target, wave), first), call_ensures(dispatch, (target, wave), second)]
        call_ensures(dispatch, (target, wave), first) && call_ensures(
            dispatch,
            (target, wave),
            second,
        ) ==> same_answers(first@, second@)
}

/// Recording one more exchange is recording its classification.
pub proof fn lemma_record_one_more(tally: Tally, exchanges: Seq<Exchange>, count: int)
    requires
        0 <= count < exchanges.len(),
    ensures
        record_exchanges(tally, exchanges.take(count + 1)) == record_exchanges(
            tally,
            exchanges.take(count),
        ).record(classified(exchanges[count])),
{
    assert(exchanges.take(count + 1).drop_last() =~= exchanges.take(count));
}

/// Batches that agree on which requests had a response change the counts
/// of a tally alike.
proof fn lemma_exchanges_counts(
    first_tally: Tally,
    second_tally: Tally,
    first: Seq<Exchange>,
    second: Seq<Exchange>,
)
    requires
        first_tally.successes() == second_tally.successes(),
        first_tally.failures == second_tally.failures,
        same_answers(first, second),
    ensures
        record_exchanges(first_tally, first).successes() == record_exchanges(
            second_tally,
            second,
        ).successes(),
        record_exchanges(first_tally, first).failures == record_exchanges(
            second_tally,
            second,
        ).failures,
    decreases first.len(),
{
    if first.len() > 0 {
        lemma_exchanges_counts(first_tally, second_tally, first.drop_last(), second.drop_last());
    }
}

/// The counts of a run depend only on which requests had a response: two
/// runs whose batches agree on that, wave by wave, have the same counts,
/// whatever the times were.
pub proof fn lemma_counts_follow_answers(
    request: LoadTestRequest,
    first: Seq<Vec<Exchange>>,
    second: Seq<Vec<Exchange>>,
)
    requires
        first.len() == second.len(),
        forall|i: int| 0 <= i < first.len() ==> same_answers(first[i]@, second[i]@),
    ensures
        tally_of_waves(request, first).successes() == tally_of_waves(request, second).successes(),
        tally_of_waves(request, first).failures == tally_of_waves(request, second).failures,
    decreases first.len(),
{
    if first.len() > 0 {
        lemma_counts_follow_answers(request, first.drop_last(), second.drop_last());
        let size = wave_at(request, (first.len() - 1) as nat).size as nat;
        let a = first.last()@;
        let b = second.last()@;
        assert(same_answers(first[first.len() - 1]@, second[first.len() - 1]@));
        assert(same_answers(kept(size, a), kept(size, b)));
        lemma_exchanges_counts(
            tally_of_waves(request, first.drop_last()),
            tally_of_waves(request, second.drop_last()),
            kept(size, a),
            kept(size, b),
        );
    }
}

/// Two runs of the same request over a steady transport have the same
/// counts of successes and failures.
pub proof fn lemma_repeated_runs_same_counts<D: Fn(&str, Wave) -> Vec<Exchange>>(
    dispatch: D,
    target: &str,
    request: LoadTestRequest,
    first: Seq<Vec<Exchange>>,
    second: Seq<Vec<Exchange>>,
)
    requires
        steady(dispatch, target),
        first.len() == second.len(),
        returned_by(dispatch, target, request, first),
        returned_by(dispatch, target, request, second),
    ensures
        tally_of_waves(request, first).successes() == tally_of_waves(request, second).successes(),
        tally_of_waves(request, first).failures == tally_of_waves(request, second).failures,
{
    assert forall|i: int| 0 <= i < first.len() implies same_answers(first[i]@, second[i]@) by {
        let wave = wave_at(request, i as nat);
        assert(call_ensures(dispatch, (target, wave), first[i]));
        assert(call_ensures(dispatch, (target, wave), second[i]));
    }
    lemma_counts_follow_answers(request, first, second);
}

/// Runs a whole load test.
///
/// `clock` reads a monotonic clock in nanoseconds; it is read once before
/// the first wave and once after the last. `dispatch` is called once for
/// each wave of the schedule, in order, and each call returns before the
/// next is made.
///
/// Input that validation refuses is returned as its error before the
/// clock is read or anything dispatched. Every other input has a report:
/// a request for which `dispatch` returned no exchange counts as a
/// failure of kind `Aborted`, and exchanges beyond the size of the wave
/// are ignored, so that the counts of the report always add up to the
/// total. Where the clock runs backwards the run took no time. The
/// report is that of the batches which `dispatch` returned and of the two
/// readings of the clock, and of nothing else.
pub fn run_load_test<C, D>(
    total_requests: u64,
    concurrency: u64,
    target: &str,
    clock: C,
    dispatch: D,
) -> (result: Result<LoadTestResult, ValidationError>) where
    C: Fn() -> u128,
    D: Fn(&str, Wave) -> Vec<Exchange>,

    requires
        call_requires(clock, ()),
        forall|index: nat|
            index < wave_count(LoadTestRequest { total_requests, concurrency }) ==> call_requires(
                dispatch,
                (target, #[trigger] wave_at(LoadTestRequest { total_requests, concurrency }, index)),
            ),
    ensures
        match rejection(total_requests, concurrency, target@) {
            Some(error) => result == Err::<LoadTestResult, ValidationError>(error),
            None => {
                &&& result matches Ok(report)
                &&& report.total_requests == total_requests
                &&& report.successful_requests + report.failed_requests == total_requests
                &&& report.successful_requests > 0 ==> report.average_response_ms.at_least(
                    report.min_ms as int,
                ) && report.average_response_ms.at_most(report.max_ms as int)
                &&& report.min_ms <= report.p95_ms <= report.p99_ms <= report.max_ms
                &&& exists|batches: Seq<Vec<Exchange>>, started: u128, ended: u128|
                    is_report_of_run(
                        clock,
                        dispatch,
                        target,
                        LoadTestRequest { total_requests, concurrency },
                        report,
                        batches,
                        started,
                        ended,
                    )
                &&& never_answers(dispatch, target) ==> {
                    &&& report.failed_requests == total_requests
                    &&& report.average_response_ms == Ratio::zero()
                    &&& report.min_ms == 0 && report.max_ms == 0
                    &&& report.p95_ms == 0 && report.p99_ms == 0
                }
                &&& always_answers(dispatch, target) ==> report.successful_requests
                    == total_requests
            },
        },
{
    let mut run = match LoadTest::start(total_requests, concurrency, target) {
        Err(error) => {
            return Err(error);
        },
        Ok(run) => run,
    };
    let ghost request = LoadTestRequest { total_requests, concurrency };
    let started = clock();
    let ghost mut batches: Seq<Vec<Exchange>> = Seq::empty();
    loop
        invariant
            run.wf(),
            run.request() == request,
            run.in_flight() == 0,
            batches.len() == run.waves_started(),
            returned_by(dispatch, target, request, batches),
            run.tally() == tally_of_waves(request, batches),
            forall|index: nat|
                index < wave_count(request) ==> call_requires(
                    dispatch,
                    (target, #[trigger] wave_at(request, index)),
                ),
            never_answers(dispatch, target) ==> run.tally().samples.len() == 0,
            always_answers(dispatch, target) ==> run.tally().failures == 0,
        ensures
            run.wf(),
            run.request() == request,
            run.complete(),
            batches.len() == wave_count(request),
            returned_by(dispatch, target, request, batches),
            run.tally() == tally_of_waves(request, batches),
            never_answers(dispatch, target) ==> run.tally().samples.len() == 0,
            always_answers(dispatch, target) ==> run.tally().failures == 0,
        decreases wave_count(request) - run.waves_started(),
    {
        proof {
            run.lemma_bounds();
        }
        let wave = match run.next_wave() {
            None => {
                break ;
            },
            Some(wave) => wave,
        };
        let exchanges = dispatch(target, wave);
        let ghost waves_now = run.waves_started();
        let ghost before = run.tally();
        let mut taken: usize = 0;
        while taken < exchanges.len() && run.outstanding() > 0
            invariant
                run.wf(),
                run.request() == request,
                run.waves_started() == waves_now,
                taken <= exchanges.len(),
                call_ensures(dispatch, (target, wave), exchanges),
                run.in_flight() + taken == wave.size,
                run.tally() == record_exchanges(before, exchanges@.take(taken as int)),
                never_answers(dispatch, target) ==> run.tally().samples.len() == 0,
                always_answers(dispatch, target) ==> run.tally().failures == 0,
            decreases exchanges.len() - taken,
        {
            proof {
                lemma_record_one_more(before, exchanges@, taken as int);
            }
            run.record(classify(exchanges[taken]));
            taken = taken + 1;
        }
        run.fail_outstanding(TransportFault::Aborted);
        proof {
            assert(exchanges@.take(taken as int) =~= kept(wave.size as nat, exchanges@));
            assert(run.tally() == record_wave(before, wave.size as nat, exchanges@));
            let ghost longer = batches.push(exchanges);
            assert(longer.drop_last() =~= batches);
            assert forall|i: int| 0 <= i < longer.len() implies call_ensures(
                dispatch,
                (target, wave_at(request, i as nat)),
                #[trigger] longer[i],
            ) by {
                if i < batches.len() {
                    assert(longer[i] == batches[i]);
                }
            }
            batches = longer;
        }
    }
    let ended = clock();
    let elapsed_nanos = if ended >= started {
        ended - started
    } else {
        0
    };
    let report = run.report(elapsed_nanos);
    proof {
        if run.tally().samples.len() == 0 {
            assert(run.tally().samples =~= Seq::<u64>::empty());
        }
        assert(is_report_of_run(clock, dispatch, target, request, report, batches, started, ended));
    }
    Ok(report)
}

} // verus!
