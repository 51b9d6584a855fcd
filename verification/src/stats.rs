//! Summary statistics over latency samples: sum, extrema, ordering and
//! nearest-rank percentiles.
//!
//! Samples are whole milliseconds. Every statistic of an empty sample
//! sequence is zero, so a run without a single success still has a report.

use vstd::multiset::Multiset;
use vstd::prelude::*;
use vstd::relations::{sorted_by, total_ordering};
use vstd::seq_lib::{
    lemma_multiset_commutative, lemma_sorted_unique, to_multiset_build, to_multiset_contains,
    to_multiset_len, to_multiset_remove,
};

verus! {

/// The sum of all samples.
pub open spec fn total(samples: Seq<u64>) -> nat
    decreases samples.len(),
{
    if samples.len() == 0 {
        0
    } else {
        total(samples.drop_last()) + samples.last() as nat
    }
}

/// The smallest sample, or zero where there is none.
pub open spec fn least(samples: Seq<u64>) -> u64
    decreases samples.len(),
{
    if samples.len() == 0 {
        0
    } else if samples.len() == 1 {
        samples[0]
    } else {
        let rest = least(samples.drop_last());
        if samples.last() < rest {
            samples.last()
        } else {
            rest
        }
    }
}

/// The largest sample, or zero where there is none.
pub open spec fn greatest(samples: Seq<u64>) -> u64
    decreases samples.len(),
{
    if samples.len() == 0 {
        0
    } else {
        let rest = greatest(samples.drop_last());
        if samples.last() > rest {
            samples.last()
        } else {
            rest
        }
    }
}

/// No sample is followed by a smaller one.
pub open spec fn ascending(samples: Seq<u64>) -> bool {
    forall|i: int, j: int| 0 <= i < j < samples.len() ==> samples[i] <= samples[j]
}

/// The order by which samples are ranked.
pub open spec fn at_most() -> spec_fn(u64, u64) -> bool {
    |a: u64, b: u64| a <= b
}

/// The samples rearranged into ascending order.
pub open spec fn in_order(samples: Seq<u64>) -> Seq<u64> {
    samples.sort_by(at_most())
}

/// The nearest-rank position of a percentile among `count` ordered
/// samples: `ceil(percent * count / 100) - 1`, held within `0..count`.
/// It is zero where there are no samples.
pub open spec fn nearest_rank(percent: nat, count: nat) -> int {
    let raw = (percent * count + 99) / 100 - 1;
    if raw >= count {
        count - 1
    } else if raw < 0 {
        0
    } else {
        raw
    }
}

/// The nearest-rank percentile of the samples: the sample that stands at
/// `nearest_rank` once they are put in ascending order. Zero where there
/// are no samples.
pub open spec fn percentile(samples: Seq<u64>, percent: nat) -> u64 {
    if samples.len() == 0 {
        0
    } else {
        in_order(samples)[nearest_rank(percent, samples.len())]
    }
}

/// The nearest-rank position never leaves the sequence it indexes.
pub proof fn lemma_nearest_rank_in_bounds(percent: nat, count: nat)
    requires
        count > 0,
    ensures
        0 <= nearest_rank(percent, count) < count,
{
}

/// A higher percentile never has a lower rank.
pub proof fn lemma_nearest_rank_monotone(lower: nat, higher: nat, count: nat)
    requires
        lower <= higher,
    ensures
        nearest_rank(lower, count) <= nearest_rank(higher, count),
{
    let low = lower * count;
    let high = higher * count;
    assert(low <= high) by (nonlinear_arith)
        requires
            lower <= higher,
            low == lower * count,
            high == higher * count,
    ;
    assert(count == 0 ==> low == 0 && high == 0) by (nonlinear_arith)
        requires
            low == lower * count,
            high == higher * count,
    ;
    assert((low + 99) / 100 <= (high + 99) / 100);
}

/// The hundredth percentile is the last position, the zeroth the first.
pub proof fn lemma_nearest_rank_ends(count: nat)
    requires
        count > 0,
    ensures
        nearest_rank(0, count) == 0,
        nearest_rank(100, count) == count - 1,
{
    assert((100 * count + 99) / 100 == count);
}

/// The ranking order is a total order.
pub proof fn lemma_at_most_is_total()
    ensures
        total_ordering(at_most()),
{
}

/// `ascending` says what vstd's `sorted_by` says under `at_most`.
pub proof fn lemma_ascending_is_sorted(samples: Seq<u64>)
    ensures
        ascending(samples) <==> sorted_by(samples, at_most()),
{
    if ascending(samples) {
        assert forall|i: int, j: int| 0 <= i < j < samples.len() implies #[trigger] at_most()(
            samples[i],
            samples[j],
        ) by {}
    }
    if sorted_by(samples, at_most()) {
        assert forall|i: int, j: int| 0 <= i < j < samples.len() implies samples[i]
            <= samples[j] by {
            assert(at_most()(samples[i], samples[j]));
        }
    }
}

/// Ordering keeps every sample, as often as it occurs, and puts them in
/// ascending order.
pub proof fn lemma_in_order(samples: Seq<u64>)
    ensures
        ascending(in_order(samples)),
        in_order(samples).to_multiset() == samples.to_multiset(),
        in_order(samples).len() == samples.len(),
{
    lemma_at_most_is_total();
    samples.lemma_sort_by_ensures(at_most());
    lemma_ascending_is_sorted(in_order(samples));
    to_multiset_len(samples);
    to_multiset_len(in_order(samples));
}

/// There is only one ascending arrangement of given samples.
pub proof fn lemma_in_order_unique(samples: Seq<u64>, arranged: Seq<u64>)
    requires
        ascending(arranged),
        arranged.to_multiset() == samples.to_multiset(),
    ensures
        arranged == in_order(samples),
{
    lemma_at_most_is_total();
    lemma_in_order(samples);
    lemma_ascending_is_sorted(arranged);
    lemma_ascending_is_sorted(in_order(samples));
    lemma_sorted_unique(arranged, in_order(samples), at_most());
}

/// With at least one sample, `least` is a sample and none is smaller.
pub proof fn lemma_least_is_minimum(samples: Seq<u64>)
    requires
        samples.len() > 0,
    ensures
        samples.contains(least(samples)),
        forall|i: int| 0 <= i < samples.len() ==> least(samples) <= samples[i],
    decreases samples.len(),
{
    if samples.len() == 1 {
        assert(samples[0] == least(samples));
    } else {
        let front = samples.drop_last();
        lemma_least_is_minimum(front);
        let at = choose|i: int| 0 <= i < front.len() && front[i] == least(front);
        assert(samples[at] == least(front));
        assert(samples[samples.len() - 1] == samples.last());
        assert forall|i: int| 0 <= i < samples.len() implies least(samples) <= samples[i] by {
            if i < front.len() {
                assert(front[i] == samples[i]);
            }
        }
    }
}

/// With at least one sample, `greatest` is a sample and none is larger.
pub proof fn lemma_greatest_is_maximum(samples: Seq<u64>)
    requires
        samples.len() > 0,
    ensures
        samples.contains(greatest(samples)),
        forall|i: int| 0 <= i < samples.len() ==> samples[i] <= greatest(samples),
    decreases samples.len(),
{
    let front = samples.drop_last();
    assert(samples[samples.len() - 1] == samples.last());
    if samples.len() == 1 {
        assert(greatest(front) == 0);
    } else {
        lemma_greatest_is_maximum(front);
        let at = choose|i: int| 0 <= i < front.len() && front[i] == greatest(front);
        assert(samples[at] == greatest(front));
        assert forall|i: int| 0 <= i < samples.len() implies samples[i] <= greatest(samples) by {
            if i < front.len() {
                assert(front[i] == samples[i]);
            }
        }
    }
}

/// The sum lies between the count times the smallest sample and the count
/// times the largest. Dividing by the count: the mean lies between the
/// extrema.
pub proof fn lemma_mean_between_extrema(samples: Seq<u64>)
    ensures
        least(samples) * samples.len() <= total(samples),
        total(samples) <= greatest(samples) * samples.len(),
    decreases samples.len(),
{
    if samples.len() == 0 {
    } else if samples.len() == 1 {
        assert(total(samples.drop_last()) == 0);
    } else {
        let front = samples.drop_last();
        lemma_mean_between_extrema(front);
        let n = front.len();
        assert(samples.len() == n + 1);
        let lo = least(samples);
        let hi = greatest(samples);
        assert(lo * (n + 1) <= least(front) * n + samples.last()) by (nonlinear_arith)
            requires
                lo <= least(front),
                lo <= samples.last(),
        ;
        assert(greatest(front) * n + samples.last() <= hi * (n + 1)) by (nonlinear_arith)
            requires
                greatest(front) <= hi,
                samples.last() <= hi,
        ;
    }
}

/// The sum of `count` samples is at most `count` times the largest value a
/// sample can take.
pub proof fn lemma_total_bounded(samples: Seq<u64>)
    ensures
        total(samples) <= samples.len() * u64::MAX,
    decreases samples.len(),
{
    if samples.len() > 0 {
        lemma_total_bounded(samples.drop_last());
        let n = samples.drop_last().len();
        assert((n + 1) * u64::MAX == n * u64::MAX + u64::MAX) by (nonlinear_arith);
    }
}

/// With at least one sample, every percentile is one of the samples and
/// lies between the smallest and the largest.
pub proof fn lemma_percentile_is_sample(samples: Seq<u64>, percent: nat)
    requires
        samples.len() > 0,
    ensures
        samples.contains(percentile(samples, percent)),
        least(samples) <= percentile(samples, percent) <= greatest(samples),
{
    lemma_in_order(samples);
    let ordered = in_order(samples);
    let rank = nearest_rank(percent, samples.len());
    let value = ordered[rank];
    to_multiset_contains(ordered, value);
    to_multiset_contains(samples, value);
    assert(ordered.contains(value));
    lemma_least_is_minimum(samples);
    lemma_greatest_is_maximum(samples);
    let at = choose|i: int| 0 <= i < samples.len() && samples[i] == value;
    assert(samples[at] == value);
}

/// A higher percentile is never a smaller value.
pub proof fn lemma_percentile_monotone(samples: Seq<u64>, lower: nat, higher: nat)
    requires
        lower <= higher,
    ensures
        percentile(samples, lower) <= percentile(samples, higher),
{
    if samples.len() > 0 {
        lemma_in_order(samples);
        lemma_nearest_rank_monotone(lower, higher, samples.len());
        lemma_nearest_rank_in_bounds(lower, samples.len());
        lemma_nearest_rank_in_bounds(higher, samples.len());
    }
}

/// The lowest percentile is the smallest sample and the hundredth the
/// largest.
pub proof fn lemma_percentile_ends(samples: Seq<u64>)
    ensures
        percentile(samples, 0) == least(samples),
        percentile(samples, 100) == greatest(samples),
{
    if samples.len() > 0 {
        lemma_in_order(samples);
        lemma_nearest_rank_ends(samples.len());
        let ordered = in_order(samples);
        let last = samples.len() - 1;
        lemma_least_is_minimum(samples);
        lemma_greatest_is_maximum(samples);
        // Each extremum of the samples stands somewhere in the ordered
        // sequence, and the ends of that sequence are samples again.
        to_multiset_contains(samples, least(samples));
        to_multiset_contains(ordered, least(samples));
        to_multiset_contains(samples, greatest(samples));
        to_multiset_contains(ordered, greatest(samples));
        to_multiset_contains(samples, ordered[0]);
        to_multiset_contains(ordered, ordered[0]);
        to_multiset_contains(samples, ordered[last]);
        to_multiset_contains(ordered, ordered[last]);
        assert(ordered.contains(ordered[0]));
        assert(ordered.contains(ordered[last]));
        let lo_at = choose|i: int| 0 <= i < ordered.len() && ordered[i] == least(samples);
        let hi_at = choose|i: int| 0 <= i < ordered.len() && ordered[i] == greatest(samples);
        let first_at = choose|i: int| 0 <= i < samples.len() && samples[i] == ordered[0];
        let last_at = choose|i: int| 0 <= i < samples.len() && samples[i] == ordered[last];
        assert(ordered[0] <= ordered[lo_at]);
        assert(ordered[hi_at] <= ordered[last]);
        assert(least(samples) <= samples[first_at]);
        assert(samples[last_at] <= greatest(samples));
    }
}

/// Taking one sample out lowers the sum by that sample.
proof fn lemma_total_remove(samples: Seq<u64>, at: int)
    requires
        0 <= at < samples.len(),
    ensures
        total(samples) == total(samples.remove(at)) + samples[at],
    decreases samples.len(),
{
    if at == samples.len() - 1 {
        assert(samples.remove(at) =~= samples.drop_last());
    } else {
        lemma_total_remove(samples.drop_last(), at);
        assert(samples.remove(at).drop_last() =~= samples.drop_last().remove(at));
        assert(samples.remove(at).last() == samples.last());
    }
}

/// The sum does not depend on the order of the samples.
proof fn lemma_total_ignores_order(first: Seq<u64>, second: Seq<u64>)
    requires
        first.to_multiset() == second.to_multiset(),
    ensures
        total(first) == total(second),
    decreases first.len(),
{
    to_multiset_len(first);
    to_multiset_len(second);
    if first.len() > 0 {
        let last = first.len() - 1;
        let x = first[last];
        to_multiset_contains(first, x);
        to_multiset_contains(second, x);
        assert(first.contains(x));
        let at = choose|i: int| 0 <= i < second.len() && second[i] == x;
        to_multiset_remove(first, last);
        to_multiset_remove(second, at);
        assert(first.remove(last) =~= first.drop_last());
        lemma_total_ignores_order(first.drop_last(), second.remove(at));
        lemma_total_remove(second, at);
    }
}

/// No statistic depends on the order in which the samples arrived: two
/// sequences that hold the same samples, each as often as the other, have
/// the same sum, the same extrema, the same ascending arrangement and
/// the same percentiles.
pub proof fn lemma_statistics_ignore_order(first: Seq<u64>, second: Seq<u64>)
    requires
        first.to_multiset() == second.to_multiset(),
    ensures
        first.len() == second.len(),
        total(first) == total(second),
        least(first) == least(second),
        greatest(first) == greatest(second),
        in_order(first) == in_order(second),
        forall|percent: nat| percentile(first, percent) == percentile(second, percent),
{
    to_multiset_len(first);
    to_multiset_len(second);
    lemma_total_ignores_order(first, second);
    lemma_in_order(second);
    lemma_in_order_unique(first, in_order(second));
    if first.len() > 0 {
        lemma_least_is_minimum(first);
        lemma_least_is_minimum(second);
        lemma_greatest_is_maximum(first);
        lemma_greatest_is_maximum(second);
        to_multiset_contains(first, least(first));
        to_multiset_contains(second, least(first));
        to_multiset_contains(first, least(second));
        to_multiset_contains(second, least(second));
        to_multiset_contains(first, greatest(first));
        to_multiset_contains(second, greatest(first));
        to_multiset_contains(first, greatest(second));
        to_multiset_contains(second, greatest(second));
        let a = choose|i: int| 0 <= i < second.len() && second[i] == least(first);
        let b = choose|i: int| 0 <= i < first.len() && first[i] == least(second);
        let c = choose|i: int| 0 <= i < second.len() && second[i] == greatest(first);
        let d = choose|i: int| 0 <= i < first.len() && first[i] == greatest(second);
        assert(least(second) <= second[a]);
        assert(least(first) <= first[b]);
        assert(second[c] <= greatest(second));
        assert(first[d] <= greatest(first));
    }
}

/// Merges two ascending vectors into one.
fn merge(left: &Vec<u64>, right: &Vec<u64>) -> (merged: Vec<u64>)
    requires
        ascending(left@),
        ascending(right@),
    ensures
        ascending(merged@),
        merged@.to_multiset() == left@.to_multiset().add(right@.to_multiset()),
{
    let mut merged: Vec<u64> = Vec::new();
    let mut i: usize = 0;
    let mut j: usize = 0;
    proof {
        assert(left@.take(0) =~= Seq::<u64>::empty());
        assert(right@.take(0) =~= Seq::<u64>::empty());
        assert(merged@ =~= Seq::<u64>::empty());
        Seq::<u64>::empty().to_multiset_ensures();
        assert(Multiset::<u64>::empty().add(Multiset::<u64>::empty()) =~= Multiset::<u64>::empty());
    }
    while i < left.len() || j < right.len()
        invariant
            i <= left.len(),
            j <= right.len(),
            ascending(left@),
            ascending(right@),
            ascending(merged@),
            merged@.to_multiset() == left@.take(i as int).to_multiset().add(
                right@.take(j as int).to_multiset(),
            ),
            forall|k: int| 0 <= k < merged@.len() && i < left.len() ==> merged@[k] <= left@[i as int],
            forall|k: int|
                0 <= k < merged@.len() && j < right.len() ==> merged@[k] <= right@[j as int],
        decreases (left.len() - i) + (right.len() - j),
    {
        let from_left = if j >= right.len() {
            true
        } else if i >= left.len() {
            false
        } else {
            left[i] <= right[j]
        };
        if from_left {
            let x = left[i];
            proof {
                assert(left@.take(i + 1) =~= left@.take(i as int).push(x));
                to_multiset_build(left@.take(i as int), x);
                assert(left@.take(i + 1).to_multiset().add(right@.take(j as int).to_multiset())
                    =~= merged@.to_multiset().insert(x));
                to_multiset_build(merged@, x);
            }
            merged.push(x);
            i += 1;
        } else {
            let x = right[j];
            proof {
                assert(right@.take(j + 1) =~= right@.take(j as int).push(x));
                to_multiset_build(right@.take(j as int), x);
                assert(left@.take(i as int).to_multiset().add(right@.take(j + 1).to_multiset())
                    =~= merged@.to_multiset().insert(x));
                to_multiset_build(merged@, x);
            }
            merged.push(x);
            j += 1;
        }
    }
    proof {
        assert(left@.take(i as int) =~= left@);
        assert(right@.take(j as int) =~= right@);
    }
    merged
}

/// Sorts the part of `samples` from `from` up to, not including, `to`.
fn sort_range(samples: &Vec<u64>, from: usize, to: usize) -> (sorted: Vec<u64>)
    requires
        from <= to <= samples.len(),
    ensures
        ascending(sorted@),
        sorted@.to_multiset() == samples@.subrange(from as int, to as int).to_multiset(),
    decreases to - from,
{
    let ghost part = samples@.subrange(from as int, to as int);
    if to - from <= 1 {
        let mut sorted: Vec<u64> = Vec::new();
        if to - from == 1 {
            proof {
                assert(part =~= Seq::<u64>::empty().push(samples@[from as int]));
            }
            sorted.push(samples[from]);
        } else {
            proof {
                assert(part =~= Seq::<u64>::empty());
            }
        }
        assert(sorted@ =~= part);
        sorted
    } else {
        let middle = from + (to - from) / 2;
        let left = sort_range(samples, from, middle);
        let right = sort_range(samples, middle, to);
        proof {
            let front = samples@.subrange(from as int, middle as int);
            let back = samples@.subrange(middle as int, to as int);
            assert(part =~= front + back);
            lemma_multiset_commutative(front, back);
        }
        merge(&left, &right)
    }
}

/// Returns the samples in ascending order.
pub fn sort_samples(samples: &Vec<u64>) -> (sorted: Vec<u64>)
    ensures
        sorted@ == in_order(samples@),
{
    let sorted = sort_range(samples, 0, samples.len());
    proof {
        assert(samples@.subrange(0, samples.len() as int) =~= samples@);
        lemma_in_order_unique(samples@, sorted@);
    }
    sorted
}

/// Computes the nearest-rank position of a percentile among `count`
/// ordered samples.
pub fn rank_index(percent: u8, count: usize) -> (index: usize)
    ensures
        index == nearest_rank(percent as nat, count as nat),
{
    if count == 0 {
        return 0;
    }
    assert(percent * count <= 255 * usize::MAX) by (nonlinear_arith)
        requires
            percent <= 255,
            count <= usize::MAX,
    ;
    let scaled: u128 = (percent as u128) * (count as u128) + 99;
    let rank: u128 = scaled / 100;
    if rank == 0 {
        0
    } else if rank - 1 >= count as u128 {
        count - 1
    } else {
        (rank - 1) as usize
    }
}

/// Picks a percentile out of samples that are already in ascending order.
pub fn percentile_of_sorted(sorted: &Vec<u64>, percent: u8) -> (value: u64)
    requires
        ascending(sorted@),
    ensures
        value == percentile(sorted@, percent as nat),
{
    if sorted.len() == 0 {
        return 0;
    }
    proof {
        lemma_in_order_unique(sorted@, sorted@);
    }
    sorted[rank_index(percent, sorted.len())]
}

} // verus!
