//! Statistics of landing times, which are held in nanoseconds.

use vstd::prelude::*;
use vstd::relations::{sorted_by, total_ordering};

verus! {

/// The order of landing times.
pub open spec fn no_later() -> spec_fn(u64, u64) -> bool {
    |a: u64, b: u64| a <= b
}

/// The landing times in ascending order.
pub open spec fn in_order(times: Seq<u64>) -> Seq<u64> {
    times.sort_by(no_later())
}

/// Whether landing times stand in ascending order.
pub open spec fn ascending(times: Seq<u64>) -> bool {
    forall|i: int, j: int| 0 <= i <= j < times.len() ==> times[i] <= times[j]
}

/// The sum of landing times.
pub open spec fn total(times: Seq<u64>) -> nat
    decreases times.len(),
{
    if times.len() == 0 {
        0
    } else {
        total(times.drop_last()) + times.last() as nat
    }
}

/// The position of a percentile among `n` values: `percent` of the way from the first to the
/// last, to the nearest position, and to the later one from half-way.
pub open spec fn percentile_index(n: nat, percent: nat) -> int {
    (percent * (n - 1) + 50) / 100
}

/// The value of a percentile among values in ascending order.
pub open spec fn percentile_of(sorted: Seq<u64>, percent: nat) -> u64 {
    if sorted.len() == 0 {
        0
    } else {
        sorted[percentile_index(sorted.len(), percent)]
    }
}

proof fn lemma_total_order()
    ensures
        total_ordering(no_later()),
{
}

/// Ascending values with the same members are the values in order.
proof fn lemma_in_order_is(sorted: Seq<u64>, times: Seq<u64>)
    requires
        ascending(sorted),
        sorted.to_multiset() == times.to_multiset(),
    ensures
        sorted == in_order(times),
{
    lemma_total_order();
    times.lemma_sort_by_ensures(no_later());
    vstd::seq_lib::lemma_sorted_unique(sorted, in_order(times), no_later());
}

/// Putting landing times in order keeps each of them, and puts none before a smaller one.
pub proof fn lemma_in_order(times: Seq<u64>)
    ensures
        ascending(in_order(times)),
        in_order(times).to_multiset() == times.to_multiset(),
        in_order(times).len() == times.len(),
{
    lemma_total_order();
    times.lemma_sort_by_ensures(no_later());
    let sorted = in_order(times);
    assert forall|i: int, j: int| 0 <= i <= j < sorted.len() implies sorted[i] <= sorted[j] by {
        if i < j {
            assert(no_later()(sorted[i], sorted[j]));
        }
    }
    vstd::seq_lib::to_multiset_len(sorted);
    vstd::seq_lib::to_multiset_len(times);
}

/// A percentile stands among the values.
proof fn lemma_percentile_index(n: nat, percent: nat)
    requires
        n > 0,
        percent <= 100,
    ensures
        0 <= percentile_index(n, percent) < n,
{
    assert(0 <= percent * (n - 1) <= 100 * (n - 1)) by (nonlinear_arith)
        requires
            n > 0,
            percent <= 100,
    ;
}

/// The landing times in ascending order.
pub fn sorted(times: &Vec<u64>) -> (sorted: Vec<u64>)
    ensures
        sorted@ == in_order(times@),
        sorted@.to_multiset() == times@.to_multiset(),
        forall|i: int, j: int| 0 <= i <= j < sorted@.len() ==> sorted@[i] <= sorted@[j],
{
    let mut sorted: Vec<u64> = Vec::new();
    let mut i: usize = 0;
    assert(sorted@ == times@.take(0));
    while i < times.len()
        invariant
            i <= times.len(),
            ascending(sorted@),
            sorted@.to_multiset() == times@.take(i as int).to_multiset(),
        decreases times.len() - i,
    {
        let t: u64 = times[i];
        let ghost front = times@.take(i as int);
        let ghost before = sorted@;
        let mut at: usize = sorted.len();
        while at > 0 && sorted[at - 1] > t
            invariant
                at <= sorted.len(),
                sorted@ == before,
                ascending(sorted@),
                forall|j: int| at <= j < sorted.len() ==> sorted@[j] > t,
            decreases at,
        {
            at -= 1;
        }
        sorted.insert(at, t);
        proof {
            vstd::seq_lib::to_multiset_insert(before, at as int, t);
            vstd::seq_lib::to_multiset_build(front, t);
            assert(times@.take(i + 1) == front.push(t));
        }
        i += 1;
    }
    proof {
        assert(times@.take(times.len() as int) == times@);
        lemma_in_order_is(sorted@, times@);
    }
    sorted
}

/// The value of a percentile among values in ascending order, and zero among none.
pub fn percentile(sorted_data: &Vec<u64>, percent: u64) -> (value: u64)
    requires
        percent <= 100,
    ensures
        value == percentile_of(sorted_data@, percent as nat),
        sorted_data@.len() == 0 ==> value == 0,
        sorted_data@.len() > 0 ==> exists|i: int|
            0 <= i < sorted_data@.len() && value == #[trigger] sorted_data@[i] && -50 < 100 * i
                - percent * (sorted_data@.len() - 1) <= 50,
{
    if sorted_data.is_empty() {
        return 0;
    }
    let steps: u128 = (sorted_data.len() - 1) as u128;
    proof {
        lemma_share(sorted_data@, percent as nat);
        lemma_percentile_index(sorted_data@.len(), percent as nat);
        assert(percent * steps <= 100 * steps) by (nonlinear_arith)
            requires
                percent <= 100,
        ;
    }
    let index: usize = ((percent as u128 * steps + 50) / 100) as usize;
    sorted_data[index]
}

/// A mean as its sum and its count.
#[derive(Debug, Clone, Copy, PartialEq, Eq, Structural)]
pub struct Average {
    pub total: u128,
    pub count: usize,
}

/// The landing times of a whole run. Where nothing landed there is nothing to say.
#[derive(Debug, Clone, Copy, PartialEq, Eq, Structural)]
pub struct OverallLatency {
    pub min: Option<u64>,
    pub max: Option<u64>,
    pub avg: Option<Average>,
    pub p50: Option<u64>,
    pub p90: Option<u64>,
    pub p95: Option<u64>,
    pub p99: Option<u64>,
}

/// What is said of a run with these landing times.
pub open spec fn overall_of(times: Seq<u64>) -> OverallLatency {
    let sorted = in_order(times);
    if times.len() == 0 {
        OverallLatency { min: None, max: None, avg: None, p50: None, p90: None, p95: None, p99: None }
    } else {
        OverallLatency {
            min: Some(sorted.first()),
            max: Some(sorted.last()),
            avg: Some(Average { total: total(times) as u128, count: times.len() as usize }),
            p50: Some(percentile_of(sorted, 50)),
            p90: Some(percentile_of(sorted, 90)),
            p95: Some(percentile_of(sorted, 95)),
            p99: Some(percentile_of(sorted, 99)),
        }
    }
}

/// A sum lies between its count times the smallest and its count times the largest value.
proof fn lemma_total_bounds(times: Seq<u64>, low: u64, high: u64)
    requires
        forall|i: int| 0 <= i < times.len() ==> low <= #[trigger] times[i] <= high,
    ensures
        times.len() * low <= total(times) <= times.len() * high,
    decreases times.len(),
{
    if times.len() > 0 {
        let front = times.drop_last();
        assert forall|i: int| 0 <= i < front.len() implies low <= #[trigger] front[i] <= high by {
            assert(front[i] == times[i]);
        }
        lemma_total_bounds(front, low, high);
        assert(times.len() * low == front.len() * low + low) by (nonlinear_arith)
            requires
                times.len() == front.len() + 1,
        ;
        assert(times.len() * high == front.len() * high + high) by (nonlinear_arith)
            requires
                times.len() == front.len() + 1,
        ;
    } else {
        assert(times.len() * low == 0) by (nonlinear_arith)
            requires
                times.len() == 0,
        ;
        assert(times.len() * high == 0) by (nonlinear_arith)
            requires
                times.len() == 0,
        ;
    }
}

fn sum(times: &Vec<u64>) -> (sum: u128)
    ensures
        sum == total(times@),
{
    let mut sum: u128 = 0;
    let mut i: usize = 0;
    while i < times.len()
        invariant
            i <= times.len(),
            sum == total(times@.take(i as int)),
        decreases times.len() - i,
    {
        let ghost front = times@.take(i as int);
        proof {
            lemma_total_bounds(front, 0, u64::MAX);
            assert(times@.take(i + 1).drop_last() == front);
            assert(front.len() * u64::MAX + u64::MAX <= u128::MAX) by (nonlinear_arith)
                requires
                    front.len() <= usize::MAX - 1,
            ;
        }
        sum += times[i] as u128;
        i += 1;
    }
    assert(times@.take(times.len() as int) == times@);
    sum
}

/// The figures of a run with these landing times.
pub fn compute_overall(latencies: &Vec<u64>) -> (overall: OverallLatency)
    ensures
        overall == overall_of(latencies@),
{
    if latencies.is_empty() {
        return OverallLatency {
            min: None,
            max: None,
            avg: None,
            p50: None,
            p90: None,
            p95: None,
            p99: None,
        };
    }
    let sorted = sorted(latencies);
    proof {
        lemma_in_order(latencies@);
    }
    OverallLatency {
        min: Some(sorted[0]),
        max: Some(sorted[sorted.len() - 1]),
        avg: Some(Average { total: sum(latencies), count: latencies.len() }),
        p50: Some(percentile(&sorted, 50)),
        p90: Some(percentile(&sorted, 90)),
        p95: Some(percentile(&sorted, 95)),
        p99: Some(percentile(&sorted, 99)),
    }
}

/// A percentile is one of the values, none below the first and none above the last, and does not
/// fall as the share rises.
pub proof fn percentiles_rise(sorted: Seq<u64>, low: nat, high: nat)
    requires
        ascending(sorted),
        sorted.len() > 0,
        low <= high <= 100,
    ensures
        sorted.contains(percentile_of(sorted, low)),
        sorted.first() <= percentile_of(sorted, low) <= percentile_of(sorted, high)
            <= sorted.last(),
{
    let n = sorted.len();
    lemma_percentile_index(n, low);
    lemma_percentile_index(n, high);
    assert(low * (n - 1) <= high * (n - 1)) by (nonlinear_arith)
        requires
            low <= high,
            n > 0,
    ;
    assert(percentile_index(n, low) <= percentile_index(n, high));
}

/// The lowest percentile is the smallest value, the highest the largest.
pub proof fn percentile_ends(sorted: Seq<u64>)
    requires
        sorted.len() > 0,
    ensures
        percentile_of(sorted, 0) == sorted.first(),
        percentile_of(sorted, 100) == sorted.last(),
{
}

/// The figures of a run stand in order: nothing is below the minimum or above the maximum, the
/// percentiles between them rise, and the mean lies between the two.
pub proof fn overall_figures_in_order(times: Seq<u64>)
    requires
        0 < times.len() <= usize::MAX,
    ensures
        ({
            let o = overall_of(times);
            &&& o.min->0 <= o.p50->0 <= o.p90->0 <= o.p95->0 <= o.p99->0 <= o.max->0
            &&& o.avg->0.count == times.len()
            &&& o.avg->0.total == total(times)
            &&& o.avg->0.count * o.min->0 <= o.avg->0.total <= o.avg->0.count * o.max->0
            &&& forall|i: int| 0 <= i < times.len() ==> o.min->0 <= #[trigger] times[i] <= o.max->0
        }),
{
    let sorted = in_order(times);
    lemma_in_order(times);
    percentiles_rise(sorted, 50, 90);
    percentiles_rise(sorted, 90, 95);
    percentiles_rise(sorted, 95, 99);
    assert forall|i: int| 0 <= i < times.len() implies sorted.first() <= #[trigger] times[i]
        <= sorted.last() by {
        vstd::seq_lib::to_multiset_contains(times, times[i]);
        vstd::seq_lib::to_multiset_contains(sorted, times[i]);
        let j = choose|j: int| 0 <= j < sorted.len() && sorted[j] == times[i];
        assert(sorted[j] == times[i]);
    }
    lemma_total_bounds(times, sorted.first(), sorted.last());
    assert(times.len() * sorted.last() <= u128::MAX) by (nonlinear_arith)
        requires
            times.len() <= usize::MAX,
            sorted.last() <= u64::MAX,
    ;
}

proof fn lemma_total_without(times: Seq<u64>, i: int)
    requires
        0 <= i < times.len(),
    ensures
        total(times) == total(times.remove(i)) + times[i],
    decreases times.len(),
{
    let rest = times.remove(i);
    if i == times.len() - 1 {
        assert(rest =~= times.drop_last());
    } else {
        lemma_total_without(times.drop_last(), i);
        assert(rest.drop_last() =~= times.drop_last().remove(i));
        assert(rest.last() == times.last());
    }
}

proof fn lemma_total_of_permutation(a: Seq<u64>, b: Seq<u64>)
    requires
        a.to_multiset() == b.to_multiset(),
    ensures
        total(a) == total(b),
    decreases a.len(),
{
    vstd::seq_lib::to_multiset_len(a);
    vstd::seq_lib::to_multiset_len(b);
    if a.len() > 0 {
        let last = a.len() - 1;
        vstd::seq_lib::to_multiset_contains(a, a[last]);
        vstd::seq_lib::to_multiset_contains(b, a[last]);
        let i = choose|i: int| 0 <= i < b.len() && b[i] == a[last];
        vstd::seq_lib::to_multiset_remove(a, last);
        vstd::seq_lib::to_multiset_remove(b, i);
        lemma_total_without(a, last);
        lemma_total_without(b, i);
        lemma_total_of_permutation(a.remove(last), b.remove(i));
    }
}

/// The figures of a run do not depend on the order in which its landing times came.
pub proof fn overall_ignores_order(a: Seq<u64>, b: Seq<u64>)
    requires
        a.to_multiset() == b.to_multiset(),
    ensures
        overall_of(a) == overall_of(b),
{
    lemma_in_order(a);
    lemma_in_order_is(in_order(a), b);
    lemma_total_of_permutation(a, b);
    vstd::seq_lib::to_multiset_len(a);
    vstd::seq_lib::to_multiset_len(b);
}

/// Sums are sums: the total of landing times is what adding them up one by one gives.
pub proof fn total_adds_up(times: Seq<u64>)
    ensures
        total(times) == times.fold_left(0int, |sum: int, time: u64| sum + time),
    decreases times.len(),
{
    if times.len() > 0 {
        total_adds_up(times.drop_last());
    }
}

proof fn lemma_share(sorted: Seq<u64>, percent: nat)
    requires
        sorted.len() > 0,
        percent <= 100,
    ensures
        exists|i: int|
            0 <= i < sorted.len() && percentile_of(sorted, percent) == #[trigger] sorted[i] && -50
                < 100 * i - percent * (sorted.len() - 1) <= 50,
{
    let i = percentile_index(sorted.len(), percent);
    lemma_percentile_index(sorted.len(), percent);
    assert(percentile_of(sorted, percent) == sorted[i]);
}

/// The figures of a run are those of its landing times in ascending order. The minimum stands first
/// and the maximum last. The median, P90, P95 and P99 stand 50, 90, 95 and 99 percent of the way
/// from the first to the last, at the nearest place, and at the later of two. The mean is the sum
/// over the number. Where nothing landed there are no figures.
pub proof fn figures_stand_at_their_places(times: Seq<u64>, sorted: Seq<u64>)
    requires
        times.len() <= usize::MAX,
        forall|i: int, j: int| 0 <= i <= j < sorted.len() ==> sorted[i] <= sorted[j],
        sorted.to_multiset() == times.to_multiset(),
    ensures
        ({
            let o = overall_of(times);
            let n = times.len();
            &&& sorted.len() == n
            &&& n == 0 ==> {
                &&& o.min is None && o.max is None && o.avg is None
                &&& o.p50 is None && o.p90 is None && o.p95 is None && o.p99 is None
            }
            &&& n > 0 ==> {
                &&& o.min == Some(sorted[0])
                &&& o.max == Some(sorted[n - 1])
                &&& o.avg is Some
                &&& o.avg->0.count == n
                &&& o.avg->0.total == times.fold_left(0int, |sum: int, time: u64| sum + time)
                &&& exists|i: int|
                    0 <= i < n && o.p50 == Some(#[trigger] sorted[i]) && -50 < 100 * i - 50 * (n
                        - 1) <= 50
                &&& exists|i: int|
                    0 <= i < n && o.p90 == Some(#[trigger] sorted[i]) && -50 < 100 * i - 90 * (n
                        - 1) <= 50
                &&& exists|i: int|
                    0 <= i < n && o.p95 == Some(#[trigger] sorted[i]) && -50 < 100 * i - 95 * (n
                        - 1) <= 50
                &&& exists|i: int|
                    0 <= i < n && o.p99 == Some(#[trigger] sorted[i]) && -50 < 100 * i - 99 * (n
                        - 1) <= 50
            }
        }),
{
    lemma_in_order_is(sorted, times);
    vstd::seq_lib::to_multiset_len(sorted);
    vstd::seq_lib::to_multiset_len(times);
    if times.len() > 0 {
        overall_figures_in_order(times);
        total_adds_up(times);
        lemma_share(sorted, 50);
        lemma_share(sorted, 90);
        lemma_share(sorted, 95);
        lemma_share(sorted, 99);
    }
}

/// Landing times in order are the same landing times, none behind a larger one.
pub proof fn times_are_put_in_order(times: Seq<u64>)
    ensures
        in_order(times).to_multiset() == times.to_multiset(),
        in_order(times).len() == times.len(),
        forall|i: int, j: int|
            0 <= i <= j < times.len() ==> #[trigger] in_order(times)[i] <= #[trigger] in_order(
                times,
            )[j],
{
    lemma_in_order(times);
}

} // verus!
