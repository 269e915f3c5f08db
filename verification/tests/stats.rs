use landingbench::stats::{compute_overall, percentile, sorted, Average, OverallLatency};

#[test]
fn sorting_puts_times_in_ascending_order() {
    assert_eq!(sorted(&vec![5, 1, 4, 1, 3]), vec![1, 1, 3, 4, 5]);
    assert_eq!(sorted(&vec![]), Vec::<u64>::new());
}

#[test]
fn percentile_takes_the_nearest_position() {
    let data: Vec<u64> = (1..=11).collect();
    assert_eq!(percentile(&data, 0), 1);
    assert_eq!(percentile(&data, 50), 6);
    assert_eq!(percentile(&data, 90), 10);
    assert_eq!(percentile(&data, 100), 11);
}

#[test]
fn percentile_rounds_half_way_up() {
    assert_eq!(percentile(&vec![10, 20], 50), 20);
    assert_eq!(percentile(&vec![10, 20], 49), 10);
    let data: Vec<u64> = (0..=10).collect();
    assert_eq!(percentile(&data, 95), 10);
    assert_eq!(percentile(&data, 94), 9);
}

#[test]
fn percentile_agrees_with_the_fraction() {
    for n in 1..=200usize {
        let data: Vec<u64> = (0..n as u64).collect();
        for (percent, p) in [(50u64, 0.50f64), (90, 0.90), (95, 0.95), (99, 0.99)] {
            let index = (p * (n - 1) as f64).round() as usize;
            assert_eq!(percentile(&data, percent), data[index]);
        }
    }
}

#[test]
fn percentile_of_nothing_is_zero() {
    assert_eq!(percentile(&vec![], 50), 0);
}

#[test]
fn overall_of_nothing_says_nothing() {
    assert_eq!(
        compute_overall(&vec![]),
        OverallLatency { min: None, max: None, avg: None, p50: None, p90: None, p95: None, p99: None }
    );
}

#[test]
fn overall_figures_of_some_times() {
    let overall = compute_overall(&vec![400, 100, 300, 200]);
    assert_eq!(
        overall,
        OverallLatency {
            min: Some(100),
            max: Some(400),
            avg: Some(Average { total: 1000, count: 4 }),
            p50: Some(300),
            p90: Some(400),
            p95: Some(400),
            p99: Some(400),
        }
    );
}

#[test]
fn overall_sum_does_not_overflow() {
    let overall = compute_overall(&vec![u64::MAX, u64::MAX, u64::MAX]);
    assert_eq!(overall.avg, Some(Average { total: 3 * (u64::MAX as u128), count: 3 }));
}

#[test]
fn overall_figures_do_not_depend_on_the_order() {
    let figures = compute_overall(&vec![7, 3, 9, 3, 1]);
    assert_eq!(compute_overall(&vec![3, 9, 1, 7, 3]), figures);
    assert_eq!(compute_overall(&vec![1, 3, 3, 7, 9]), figures);
    assert_eq!(figures.p50, Some(3));
    assert_eq!(figures.avg, Some(Average { total: 23, count: 5 }));
}
