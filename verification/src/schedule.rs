//! The wave schedule: how the requests of a run are divided into waves.
//!
//! The requests are numbered from zero. They are cut into consecutive
//! waves of `concurrency` requests each; only the last wave may be
//! smaller. The requests of one wave are outstanding together, and a wave
//! is complete before the next one starts, so that never more than
//! `concurrency` requests are outstanding.

use vstd::prelude::*;
use crate::request::LoadTestRequest;

verus! {

/// One wave: the requests numbered `first` up to, not including,
/// `first + size`.
#[derive(Clone, Copy, Debug, PartialEq, Eq, Structural)]
pub struct Wave {
    pub first: u64,
    pub size: u64,
}

/// The number of waves of a run: `total_requests / concurrency`, rounded
/// up.
pub open spec fn wave_count(request: LoadTestRequest) -> nat {
    if request.concurrency == 0 {
        0
    } else {
        ((request.total_requests + request.concurrency - 1) / (request.concurrency as int)) as nat
    }
}

/// The number of requests that the first `waves` waves hold together.
pub open spec fn dispatched_after(request: LoadTestRequest, waves: nat) -> nat {
    if waves * request.concurrency >= request.total_requests {
        request.total_requests as nat
    } else {
        (waves * request.concurrency) as nat
    }
}

/// The wave with the given index, counted from zero.
pub open spec fn wave_at(request: LoadTestRequest, index: nat) -> Wave {
    Wave {
        first: dispatched_after(request, index) as u64,
        size: (dispatched_after(request, index + 1) - dispatched_after(request, index)) as u64,
    }
}

/// Counting the requests wave by wave starts at zero, never runs
/// backwards, and reaches the total with the last wave and not before.
pub proof fn lemma_waves_cover(request: LoadTestRequest, index: nat)
    requires
        request.valid(),
    ensures
        dispatched_after(request, 0) == 0,
        dispatched_after(request, index) <= dispatched_after(request, index + 1),
        dispatched_after(request, index) <= request.total_requests,
        index < wave_count(request) <==> dispatched_after(request, index) < request.total_requests,
{
    let c = request.concurrency as int;
    let t = request.total_requests as int;
    let n = wave_count(request) as int;
    assert(index * c <= (index + 1) * c) by (nonlinear_arith)
        requires
            c >= 0,
    ;
    lemma_count_brackets_total(request);
    if index < n {
        assert(index * c <= (n - 1) * c) by (nonlinear_arith)
            requires
                index <= n - 1,
                c >= 0,
        ;
    } else {
        assert(index * c >= n * c) by (nonlinear_arith)
            requires
                index >= n,
                c >= 0,
        ;
    }
}

/// The waves but the last do not hold all requests; all waves do.
pub proof fn lemma_count_brackets_total(request: LoadTestRequest)
    requires
        request.valid(),
    ensures
        wave_count(request) >= 1,
        (wave_count(request) - 1) * request.concurrency < request.total_requests,
        request.total_requests <= wave_count(request) * request.concurrency,
        wave_count(request) <= request.total_requests,
{
    let c = request.concurrency as int;
    let t = request.total_requests as int;
    let n = (t + c - 1) / c;
    assert(n * c <= t + c - 1 < n * c + c && n >= 1 && n <= t) by (nonlinear_arith)
        requires
            c >= 1,
            t >= 1,
            n == (t + c - 1) / c,
    ;
    assert((n - 1) * c == n * c - c) by (nonlinear_arith);
}

/// Every wave holds at least one request and at most `concurrency`, and
/// every wave but the last holds exactly `concurrency`.
pub proof fn lemma_wave_size(request: LoadTestRequest, index: nat)
    requires
        request.valid(),
        index < wave_count(request),
    ensures
        1 <= wave_at(request, index).size <= request.concurrency,
        index + 1 < wave_count(request) ==> wave_at(request, index).size == request.concurrency,
        wave_at(request, index).first == index * request.concurrency,
        wave_at(request, index).first + wave_at(request, index).size <= request.total_requests,
        index + 1 == wave_count(request) ==> wave_at(request, index).first + wave_at(
            request,
            index,
        ).size == request.total_requests,
{
    let c = request.concurrency as int;
    lemma_waves_cover(request, index);
    lemma_waves_cover(request, index + 1);
    assert((index + 1) * c == index * c + c) by (nonlinear_arith);
}

/// A wave starts where the one before it ended.
pub proof fn lemma_waves_consecutive(request: LoadTestRequest, index: nat)
    requires
        request.valid(),
        index + 1 < wave_count(request),
    ensures
        wave_at(request, index + 1).first == wave_at(request, index).first + wave_at(
            request,
            index,
        ).size,
{
    lemma_wave_size(request, index);
    lemma_wave_size(request, index + 1);
    let c = request.concurrency as int;
    assert((index + 1) * c == index * c + c) by (nonlinear_arith);
}

/// Where the concurrency is at least the total, the run is a single wave
/// that holds every request.
pub proof fn lemma_single_wave(request: LoadTestRequest)
    requires
        request.valid(),
        request.concurrency >= request.total_requests,
    ensures
        wave_count(request) == 1,
        wave_at(request, 0) == (Wave { first: 0, size: request.total_requests }),
{
    let c = request.concurrency as int;
    let t = request.total_requests as int;
    assert((t + c - 1) / c == 1) by (nonlinear_arith)
        requires
            1 <= t <= c,
    ;
    assert(0 * c == 0);
    assert(1 * c == c);
}

/// Counts the waves of a run.
pub fn count_waves(request: &LoadTestRequest) -> (count: u64)
    requires
        request.valid(),
    ensures
        count == wave_count(*request),
{
    let full = request.total_requests / request.concurrency;
    let rest = request.total_requests % request.concurrency;
    proof {
        let c = request.concurrency as int;
        let t = request.total_requests as int;
        assert((t + c - 1) / c == if t % c == 0 {
            t / c
        } else {
            t / c + 1
        }) by (nonlinear_arith)
            requires
                c >= 1,
                t >= 1,
        ;
        lemma_count_brackets_total(*request);
    }
    if rest == 0 {
        full
    } else {
        full + 1
    }
}

/// Counts the requests that the first `waves` waves hold together.
pub fn dispatched_by(request: &LoadTestRequest, waves: u64) -> (dispatched: u64)
    requires
        request.valid(),
    ensures
        dispatched == dispatched_after(*request, waves as nat),
{
    let count = count_waves(request);
    proof {
        lemma_waves_cover(*request, waves as nat);
    }
    if waves >= count {
        request.total_requests
    } else {
        waves * request.concurrency
    }
}

/// Returns the wave with the given index, or `None` where the run has no
/// such wave.
pub fn nth_wave(request: &LoadTestRequest, index: u64) -> (wave: Option<Wave>)
    requires
        request.valid(),
    ensures
        wave == if index < wave_count(*request) {
            Some(wave_at(*request, index as nat))
        } else {
            None
        },
{
    let count = count_waves(request);
    if index >= count {
        return None;
    }
    proof {
        lemma_wave_size(*request, index as nat);
    }
    let first = index * request.concurrency;
    let rest = request.total_requests - first;
    let size = if rest < request.concurrency {
        rest
    } else {
        request.concurrency
    };
    proof {
        lemma_waves_cover(*request, index as nat);
        lemma_waves_cover(*request, (index + 1) as nat);
        let c = request.concurrency as int;
        assert((index + 1) * c == index * c + c) by (nonlinear_arith);
    }
    Some(Wave { first, size })
}

} // verus!
