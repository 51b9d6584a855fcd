use loadtest::aggregate::Ratio;
use loadtest::outcome::{classify, Exchange, RequestOutcome, TransportFault, TransportReply};
use loadtest::report::LoadTestResult;
use loadtest::request::ValidationError;
use loadtest::run::LoadTest;
use loadtest::schedule::Wave;

const TARGET: &str = "http://localhost:8000/api";

fn success(elapsed_ms: u64) -> RequestOutcome {
    RequestOutcome::Success { elapsed_ms }
}

fn failure() -> RequestOutcome {
    RequestOutcome::Failure { elapsed_ms: 2, kind: TransportFault::Connect }
}

/// Runs the loop that a caller of the state machine runs, over a stub
/// that answers the request with the given number.
fn drive(
    total_requests: u64,
    concurrency: u64,
    target: &str,
    stub: &mut dyn FnMut(u64) -> Exchange,
    elapsed_nanos: u128,
) -> Result<(LoadTestResult, Vec<u64>), ValidationError> {
    let mut run = LoadTest::start(total_requests, concurrency, target)?;
    let mut sizes = Vec::new();
    while let Some(wave) = run.next_wave() {
        sizes.push(wave.size);
        assert_eq!(run.outstanding(), wave.size);
        assert!(run.outstanding() <= concurrency);
        for number in wave.first..wave.first + wave.size {
            assert!(run.record(classify(stub(number))));
        }
        assert_eq!(run.outstanding(), 0);
    }
    assert!(run.is_complete());
    let report = run.finish(elapsed_nanos).expect("a complete run has a report");
    Ok((report, sizes))
}

fn answering(status: u16) -> impl FnMut(u64) -> Exchange {
    move |number| Exchange {
        reply: TransportReply::Response { status },
        elapsed_nanos: (number as u128 + 1) * 1_000_000,
    }
}

#[test]
fn invalid_input_starts_no_run_and_sends_no_request() {
    let mut calls = 0;
    let mut stub = |_number: u64| {
        calls += 1;
        Exchange { reply: TransportReply::Response { status: 200 }, elapsed_nanos: 0 }
    };
    assert_eq!(drive(0, 3, TARGET, &mut stub, 1).err(), Some(ValidationError::ZeroRequests));
    assert_eq!(drive(3, 0, TARGET, &mut stub, 1).err(), Some(ValidationError::ZeroConcurrency));
    assert_eq!(drive(0, 0, TARGET, &mut stub, 1).err(), Some(ValidationError::ZeroRequests));
    assert_eq!(drive(3, 3, "", &mut stub, 1).err(), Some(ValidationError::MissingTarget));
    assert_eq!(calls, 0);
}

#[test]
fn valid_input_sends_exactly_the_total() {
    let mut calls = 0;
    let mut stub = |_number: u64| {
        calls += 1;
        Exchange { reply: TransportReply::Response { status: 200 }, elapsed_nanos: 0 }
    };
    let (report, _) = drive(10, 3, TARGET, &mut stub, 1).expect("valid input");
    assert_eq!(report.total_requests, 10);
    assert_eq!(calls, 10);
}

#[test]
fn the_run_hands_out_waves_of_three_three_three_one() {
    let (_, sizes) = drive(10, 3, TARGET, &mut answering(200), 1).expect("valid input");
    assert_eq!(sizes, vec![3, 3, 3, 1]);
}

#[test]
fn the_run_hands_out_one_wave_where_the_concurrency_covers_the_total() {
    let (_, sizes) = drive(4, 4, TARGET, &mut answering(200), 1).expect("valid input");
    assert_eq!(sizes, vec![4]);
    let (_, sizes) = drive(4, 1000, TARGET, &mut answering(200), 1).expect("valid input");
    assert_eq!(sizes, vec![4]);
}

#[test]
fn successes_and_failures_add_up_to_the_total() {
    for (total, concurrency) in [(1u64, 1u64), (10, 3), (17, 5), (6, 6), (5, 9)] {
        let mut stub = |number: u64| {
            if number % 3 == 0 {
                Exchange { reply: TransportReply::Fault { kind: TransportFault::Timeout }, elapsed_nanos: 5 }
            } else {
                Exchange { reply: TransportReply::Response { status: 200 }, elapsed_nanos: 9_000_000 }
            }
        };
        let (report, _) = drive(total, concurrency, TARGET, &mut stub, 1_000).expect("valid input");
        assert_eq!(report.total_requests, total);
        assert_eq!(report.successful_requests + report.failed_requests, total);
        assert_eq!(report.failed_requests, (total + 2) / 3);
    }
}

#[test]
fn the_report_of_a_whole_run() {
    // Requests 0..5 take 1, 2, 3, 4 and 5 ms; request 2 fails.
    let mut stub = |number: u64| Exchange {
        reply: if number == 2 {
            TransportReply::Fault { kind: TransportFault::Dns }
        } else {
            TransportReply::Response { status: 200 }
        },
        elapsed_nanos: (number as u128 + 1) * 1_000_000 + 999_999,
    };
    let (report, sizes) = drive(5, 2, TARGET, &mut stub, 2_500_000_000).expect("valid input");
    assert_eq!(sizes, vec![2, 2, 1]);
    assert_eq!(
        report,
        LoadTestResult {
            total_requests: 5,
            successful_requests: 4,
            failed_requests: 1,
            total_duration_ms: 2500,
            // (1 + 2 + 4 + 5) / 4
            average_response_ms: Ratio { numerator: 12, denominator: 4 },
            // 5 / 2.5 s
            requests_per_second: Ratio { numerator: 5_000_000_000, denominator: 2_500_000_000 },
            min_ms: 1,
            max_ms: 5,
            p95_ms: 5,
            p99_ms: 5,
        }
    );
}

#[test]
fn a_run_where_every_request_fails() {
    let mut stub = |_number: u64| Exchange {
        reply: TransportReply::Fault { kind: TransportFault::Connect },
        elapsed_nanos: 3_000_000,
    };
    let (report, _) = drive(7, 2, TARGET, &mut stub, 500_000_000).expect("valid input");
    assert_eq!(report.failed_requests, 7);
    assert_eq!(report.failed_requests, report.total_requests);
    assert_eq!(report.successful_requests, 0);
    assert_eq!(report.average_response_ms, Ratio { numerator: 0, denominator: 1 });
    assert_eq!(report.min_ms, 0);
    assert_eq!(report.max_ms, 0);
    assert_eq!(report.p95_ms, 0);
    assert_eq!(report.p99_ms, 0);
    assert_eq!(report.total_duration_ms, 500);
    // 7 requests in half a second
    assert_eq!(report.requests_per_second, Ratio { numerator: 7_000_000_000, denominator: 500_000_000 });
    assert_eq!(report.requests_per_second.numerator / report.requests_per_second.denominator, 14);
}

#[test]
fn two_runs_over_the_same_stub_have_the_same_counts() {
    let stub = |slowness: u128| {
        move |number: u64| Exchange {
            reply: if number % 4 == 1 {
                TransportReply::Fault { kind: TransportFault::Tls }
            } else {
                TransportReply::Response { status: 200 }
            },
            elapsed_nanos: slowness * (number as u128 + 1),
        }
    };
    let (first, _) = drive(25, 4, TARGET, &mut stub(1_000_000), 1_000_000_000).expect("valid input");
    let (again, _) = drive(25, 4, TARGET, &mut stub(1_000_000), 1_000_000_000).expect("valid input");
    let (slower, _) = drive(25, 4, TARGET, &mut stub(9_000_000), 7_000_000_000).expect("valid input");
    assert_eq!(first, again);
    assert_eq!(first.successful_requests, 19);
    assert_eq!(first.failed_requests, 6);
    assert_eq!(slower.successful_requests, first.successful_requests);
    assert_eq!(slower.failed_requests, first.failed_requests);
    assert_ne!(slower.max_ms, first.max_ms);
}

#[test]
fn no_wave_is_handed_out_while_an_outcome_is_missing() {
    let mut run = LoadTest::start(5, 2, TARGET).expect("valid input");
    assert_eq!(run.outstanding(), 0);
    assert_eq!(run.next_wave(), Some(Wave { first: 0, size: 2 }));
    assert_eq!(run.outstanding(), 2);
    assert_eq!(run.next_wave(), None);
    assert!(run.record(success(4)));
    assert_eq!(run.outstanding(), 1);
    assert_eq!(run.next_wave(), None);
    assert!(run.record(failure()));
    assert_eq!(run.outstanding(), 0);
    assert_eq!(run.next_wave(), Some(Wave { first: 2, size: 2 }));
}

#[test]
fn an_outcome_that_no_request_waits_for_is_refused() {
    let mut run = LoadTest::start(2, 1, TARGET).expect("valid input");
    assert!(!run.record(success(1)));
    assert_eq!(run.next_wave(), Some(Wave { first: 0, size: 1 }));
    assert!(run.record(success(1)));
    assert!(!run.record(success(1)));
    assert_eq!(run.next_wave(), Some(Wave { first: 1, size: 1 }));
    assert!(run.record(success(3)));
    assert!(!run.record(failure()));
    let report = run.finish(1).expect("a complete run has a report");
    assert_eq!(report.successful_requests, 2);
    assert_eq!(report.failed_requests, 0);
    assert_eq!(report.average_response_ms, Ratio { numerator: 4, denominator: 2 });
}

#[test]
fn an_unfinished_run_has_no_report() {
    let mut run = LoadTest::start(3, 2, TARGET).expect("valid input");
    assert!(!run.is_complete());
    assert_eq!(run.finish(1), None);
    assert_eq!(run.next_wave(), Some(Wave { first: 0, size: 2 }));
    assert!(run.record(success(1)));
    assert!(run.record(success(1)));
    assert_eq!(run.finish(1), None);
    assert_eq!(run.next_wave(), Some(Wave { first: 2, size: 1 }));
    assert_eq!(run.finish(1), None);
    assert!(run.record(success(1)));
    assert!(run.is_complete());
    assert!(run.finish(1).is_some());
    assert_eq!(run.next_wave(), None);
}

#[test]
fn outstanding_requests_can_be_failed_together() {
    let mut run = LoadTest::start(5, 3, TARGET).expect("valid input");
    assert_eq!(run.fail_outstanding(TransportFault::Aborted), 0);
    assert_eq!(run.next_wave(), Some(Wave { first: 0, size: 3 }));
    assert!(run.record(success(8)));
    assert_eq!(run.fail_outstanding(TransportFault::Aborted), 2);
    assert_eq!(run.outstanding(), 0);
    assert_eq!(run.next_wave(), Some(Wave { first: 3, size: 2 }));
    assert_eq!(run.fail_outstanding(TransportFault::Timeout), 2);
    let report = run.finish(1_000_000).expect("a complete run has a report");
    assert_eq!(report.successful_requests, 1);
    assert_eq!(report.failed_requests, 4);
    assert_eq!(report.min_ms, 8);
    assert_eq!(report.max_ms, 8);
    assert_eq!(report.total_duration_ms, 1);
}
