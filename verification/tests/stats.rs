use loadtest::stats::{percentile_of_sorted, rank_index, sort_samples};

fn hundred_uniform_samples() -> Vec<u64> {
    (1..=100u64).map(|i| i * 10).collect()
}

#[test]
fn percentiles_of_a_hundred_uniform_samples() {
    let samples = hundred_uniform_samples();
    assert_eq!(samples.first(), Some(&10));
    assert_eq!(samples.last(), Some(&1000));
    // ceil(0.95 * 100) - 1 = 94 and ceil(0.99 * 100) - 1 = 98.
    assert_eq!(percentile_of_sorted(&samples, 95), 950);
    assert_eq!(percentile_of_sorted(&samples, 99), 990);
}

#[test]
fn percentiles_do_not_depend_on_the_order_of_arrival() {
    let mut samples = hundred_uniform_samples();
    samples.reverse();
    samples.swap(3, 77);
    samples.swap(0, 50);
    let sorted = sort_samples(&samples);
    assert_eq!(sorted, hundred_uniform_samples());
    assert_eq!(percentile_of_sorted(&sorted, 95), 950);
    assert_eq!(percentile_of_sorted(&sorted, 99), 990);
}

#[test]
fn nearest_rank_of_a_hundred() {
    assert_eq!(rank_index(95, 100), 94);
    assert_eq!(rank_index(99, 100), 98);
    assert_eq!(rank_index(50, 100), 49);
    assert_eq!(rank_index(1, 100), 0);
}

#[test]
fn nearest_rank_rounds_up() {
    // ceil(0.95 * 20) - 1 = 19 - 1
    assert_eq!(rank_index(95, 20), 18);
    // ceil(0.95 * 21) - 1 = ceil(19.95) - 1
    assert_eq!(rank_index(95, 21), 19);
    // ceil(0.95 * 10) - 1 = ceil(9.5) - 1
    assert_eq!(rank_index(95, 10), 9);
    // ceil(0.99 * 3) - 1 = ceil(2.97) - 1
    assert_eq!(rank_index(99, 3), 2);
    // ceil(0.5 * 3) - 1 = ceil(1.5) - 1
    assert_eq!(rank_index(50, 3), 1);
    // ceil(0.01 * 1000) - 1
    assert_eq!(rank_index(1, 1000), 9);
}

#[test]
fn nearest_rank_is_held_within_the_samples() {
    assert_eq!(rank_index(0, 10), 0);
    assert_eq!(rank_index(100, 10), 9);
    assert_eq!(rank_index(255, 10), 9);
    assert_eq!(rank_index(95, 1), 0);
    assert_eq!(rank_index(0, 1), 0);
    assert_eq!(rank_index(95, 0), 0);
}

#[test]
fn nearest_rank_of_the_largest_count() {
    let count = usize::MAX;
    let expected = (95u128 * count as u128 + 99) / 100 - 1;
    assert_eq!(rank_index(95, count) as u128, expected);
    assert_eq!(rank_index(100, count), count - 1);
    assert_eq!(rank_index(255, count), count - 1);
}

#[test]
fn a_single_sample_is_every_percentile() {
    let samples = vec![42];
    assert_eq!(percentile_of_sorted(&samples, 0), 42);
    assert_eq!(percentile_of_sorted(&samples, 95), 42);
    assert_eq!(percentile_of_sorted(&samples, 99), 42);
    assert_eq!(percentile_of_sorted(&samples, 100), 42);
}

#[test]
fn percentiles_without_samples_are_zero() {
    let samples: Vec<u64> = Vec::new();
    assert_eq!(percentile_of_sorted(&samples, 95), 0);
    assert_eq!(percentile_of_sorted(&samples, 99), 0);
}

#[test]
fn the_ends_are_the_extrema() {
    let samples = vec![3, 8, 8, 21, 34];
    assert_eq!(percentile_of_sorted(&samples, 0), 3);
    assert_eq!(percentile_of_sorted(&samples, 100), 34);
    // ceil(0.95 * 5) - 1 = 4, ceil(0.5 * 5) - 1 = 2, ceil(0.2 * 5) - 1 = 0
    assert_eq!(percentile_of_sorted(&samples, 95), 34);
    assert_eq!(percentile_of_sorted(&samples, 50), 8);
    assert_eq!(percentile_of_sorted(&samples, 20), 3);
    assert_eq!(percentile_of_sorted(&samples, 21), 8);
}

#[test]
fn sorting_keeps_every_sample() {
    assert_eq!(sort_samples(&vec![5, 1, 4, 1]), vec![1, 1, 4, 5]);
    assert_eq!(sort_samples(&vec![2, 1]), vec![1, 2]);
    assert_eq!(sort_samples(&vec![7]), vec![7]);
    assert_eq!(sort_samples(&Vec::new()), Vec::<u64>::new());
    assert_eq!(sort_samples(&vec![u64::MAX, 0, u64::MAX, 0]), vec![0, 0, u64::MAX, u64::MAX]);
    assert_eq!(sort_samples(&vec![9, 8, 7, 6, 5, 4, 3, 2, 1]), vec![1, 2, 3, 4, 5, 6, 7, 8, 9]);
}

#[test]
fn sorting_leaves_the_samples_as_they_were() {
    let samples = vec![3, 1, 2];
    let sorted = sort_samples(&samples);
    assert_eq!(samples, vec![3, 1, 2]);
    assert_eq!(sorted, vec![1, 2, 3]);
}

#[test]
fn sorting_many_samples_agrees_with_the_standard_sort() {
    let mut samples = Vec::new();
    let mut x: u64 = 12345;
    for _ in 0..5000 {
        x = x.wrapping_mul(6364136223846793005).wrapping_add(1442695040888963407);
        samples.push(x >> 40);
    }
    let mut expected = samples.clone();
    expected.sort();
    assert_eq!(sort_samples(&samples), expected);
}
