use std::cell::Cell;

use loadtest::aggregate::Ratio;
use loadtest::driver::run_load_test;
use loadtest::outcome::{Exchange, TransportFault, TransportReply};
use loadtest::report::LoadTestResult;
use loadtest::request::ValidationError;
use loadtest::schedule::Wave;

const TARGET: &str = "http://localhost:8000/api";

fn response(elapsed_ms: u64) -> Exchange {
    Exchange {
        reply: TransportReply::Response { status: 200 },
        elapsed_nanos: elapsed_ms as u128 * 1_000_000,
    }
}

fn fault() -> Exchange {
    Exchange { reply: TransportReply::Fault { kind: TransportFault::Connect }, elapsed_nanos: 0 }
}

fn fixed_clock() -> impl Fn() -> u128 {
    || 42
}

#[test]
fn the_driver_refuses_invalid_input_before_any_call() {
    let clock_reads = Cell::new(0u32);
    let dispatches = Cell::new(0u32);
    let clock = || {
        clock_reads.set(clock_reads.get() + 1);
        0u128
    };
    let dispatch = |_target: &str, wave: Wave| {
        dispatches.set(dispatches.get() + 1);
        (0..wave.size).map(|_| response(1)).collect::<Vec<Exchange>>()
    };
    assert_eq!(run_load_test(0, 5, TARGET, &clock, &dispatch), Err(ValidationError::ZeroRequests));
    assert_eq!(run_load_test(5, 0, TARGET, &clock, &dispatch), Err(ValidationError::ZeroConcurrency));
    assert_eq!(run_load_test(5, 5, "", &clock, &dispatch), Err(ValidationError::MissingTarget));
    assert_eq!(clock_reads.get(), 0);
    assert_eq!(dispatches.get(), 0);
}

#[test]
fn the_driver_calls_the_transport_once_for_each_wave_in_order() {
    let seen = std::cell::RefCell::new(Vec::new());
    let dispatch = |target: &str, wave: Wave| {
        assert_eq!(target, TARGET);
        seen.borrow_mut().push(wave);
        (0..wave.size).map(|_| response(1)).collect::<Vec<Exchange>>()
    };
    let report = run_load_test(10, 3, TARGET, fixed_clock(), &dispatch).expect("valid input");
    assert_eq!(report.total_requests, 10);
    assert_eq!(report.successful_requests, 10);
    assert_eq!(report.failed_requests, 0);
    assert_eq!(
        *seen.borrow(),
        vec![
            Wave { first: 0, size: 3 },
            Wave { first: 3, size: 3 },
            Wave { first: 6, size: 3 },
            Wave { first: 9, size: 1 },
        ]
    );
}

#[test]
fn the_driver_makes_one_call_where_the_concurrency_covers_the_total() {
    let dispatches = Cell::new(0u32);
    let dispatch = |_target: &str, wave: Wave| {
        dispatches.set(dispatches.get() + 1);
        (0..wave.size).map(|_| response(1)).collect::<Vec<Exchange>>()
    };
    let report = run_load_test(6, 50, TARGET, fixed_clock(), &dispatch).expect("valid input");
    assert_eq!(dispatches.get(), 1);
    assert_eq!(report.successful_requests, 6);
}

#[test]
fn the_driver_measures_the_run_by_the_clock() {
    let now = Cell::new(1_000_000_000u128);
    let clock = || {
        let reading = now.get();
        now.set(reading + 2_000_000_000);
        reading
    };
    let dispatch = |_target: &str, wave: Wave| {
        (0..wave.size).map(|offset| response(10 * (wave.first + offset + 1))).collect::<Vec<Exchange>>()
    };
    let report = run_load_test(4, 2, TARGET, clock, dispatch).expect("valid input");
    assert_eq!(
        report,
        LoadTestResult {
            total_requests: 4,
            successful_requests: 4,
            failed_requests: 0,
            total_duration_ms: 2000,
            average_response_ms: Ratio { numerator: 100, denominator: 4 },
            requests_per_second: Ratio { numerator: 4_000_000_000, denominator: 2_000_000_000 },
            min_ms: 10,
            max_ms: 40,
            p95_ms: 40,
            p99_ms: 40,
        }
    );
}

#[test]
fn a_clock_that_runs_backwards_measures_no_time() {
    let now = Cell::new(5_000u128);
    let clock = || {
        let reading = now.get();
        now.set(reading - 1_000);
        reading
    };
    let dispatch = |_target: &str, wave: Wave| (0..wave.size).map(|_| response(1)).collect::<Vec<Exchange>>();
    let report = run_load_test(2, 2, TARGET, clock, dispatch).expect("valid input");
    assert_eq!(report.total_duration_ms, 0);
    assert_eq!(report.requests_per_second, Ratio { numerator: 2_000_000_000, denominator: 0 });
}

#[test]
fn a_transport_that_only_fails_gives_a_report_of_failures() {
    let dispatch = |_target: &str, wave: Wave| (0..wave.size).map(|_| fault()).collect::<Vec<Exchange>>();
    let now = Cell::new(0u128);
    let clock = || {
        let reading = now.get();
        now.set(reading + 250_000_000);
        reading
    };
    let report = run_load_test(9, 4, TARGET, clock, dispatch).expect("valid input");
    assert_eq!(report.failed_requests, 9);
    assert_eq!(report.successful_requests, 0);
    assert_eq!(report.average_response_ms, Ratio { numerator: 0, denominator: 1 });
    assert_eq!(report.min_ms, 0);
    assert_eq!(report.max_ms, 0);
    assert_eq!(report.p95_ms, 0);
    assert_eq!(report.p99_ms, 0);
    assert_eq!(report.total_duration_ms, 250);
    assert_eq!(report.requests_per_second, Ratio { numerator: 9_000_000_000, denominator: 250_000_000 });
}

#[test]
fn requests_that_the_transport_returned_nothing_for_count_as_failures() {
    let dispatch = |_target: &str, wave: Wave| {
        (0..wave.size.saturating_sub(1)).map(|_| response(5)).collect::<Vec<Exchange>>()
    };
    let report = run_load_test(10, 3, TARGET, fixed_clock(), dispatch).expect("valid input");
    // Waves of 3, 3, 3 and 1 lose one request each.
    assert_eq!(report.total_requests, 10);
    assert_eq!(report.successful_requests, 6);
    assert_eq!(report.failed_requests, 4);
    assert_eq!(report.average_response_ms, Ratio { numerator: 30, denominator: 6 });
}

#[test]
fn a_transport_that_returns_nothing_at_all_fails_every_request() {
    let dispatch = |_target: &str, _wave: Wave| Vec::<Exchange>::new();
    let report = run_load_test(5, 2, TARGET, fixed_clock(), dispatch).expect("valid input");
    assert_eq!(report.successful_requests, 0);
    assert_eq!(report.failed_requests, 5);
}

#[test]
fn exchanges_beyond_the_wave_are_ignored() {
    let dispatch = |_target: &str, wave: Wave| {
        (0..wave.size + 4).map(|offset| response(offset + 1)).collect::<Vec<Exchange>>()
    };
    let report = run_load_test(5, 2, TARGET, fixed_clock(), dispatch).expect("valid input");
    assert_eq!(report.total_requests, 5);
    assert_eq!(report.successful_requests, 5);
    assert_eq!(report.failed_requests, 0);
    // Waves of 2, 2 and 1 keep the latencies 1, 2; 1, 2; 1.
    assert_eq!(report.average_response_ms, Ratio { numerator: 7, denominator: 5 });
    assert_eq!(report.max_ms, 2);
}

#[test]
fn two_driven_runs_over_the_same_transport_have_the_same_counts() {
    let transport = |slowness: u64| {
        move |_target: &str, wave: Wave| {
            (0..wave.size)
                .map(|offset| if (wave.first + offset) % 5 == 0 { fault() } else { response(slowness) })
                .collect::<Vec<Exchange>>()
        }
    };
    let first = run_load_test(23, 4, TARGET, fixed_clock(), transport(3)).expect("valid input");
    let again = run_load_test(23, 4, TARGET, fixed_clock(), transport(3)).expect("valid input");
    let slower = run_load_test(23, 4, TARGET, fixed_clock(), transport(300)).expect("valid input");
    assert_eq!(first, again);
    assert_eq!(first.failed_requests, 5);
    assert_eq!(first.successful_requests, 18);
    assert_eq!(slower.failed_requests, first.failed_requests);
    assert_eq!(slower.successful_requests, first.successful_requests);
    assert_eq!(slower.max_ms, 300);
}
