//! The metrics sampler: latency percentiles, throughput and success rate
//! from raw observations.
//!
//! Times are microseconds, rates are fractions in millionths.

use vstd::prelude::*;
use vstd::relations::{sorted_by, total_ordering};
use crate::balancer::server::SCALE;

verus! {

/// Why a measurement fails.
#[derive(Clone, Copy, Debug, PartialEq, Eq, Structural)]
pub enum MetricsError {
    /// There is no observation to measure.
    NoDataAvailable,
}

/// Latency figures of a set of observations, in microseconds.
#[derive(Clone, Copy, Debug, PartialEq, Eq, Structural)]
pub struct LatencyMetrics {
    pub min: u64,
    pub max: u64,
    pub p50: u64,
    pub p90: u64,
    pub p99: u64,
}

/// Performance figures of one server.
#[derive(Clone, Copy, Debug, PartialEq, Eq, Structural)]
pub struct PerformanceMetrics {
    /// Microseconds.
    pub avg_response_time: u64,
    /// Microseconds.
    pub avg_processing_time: u64,
    /// Requests per second, in thousandths of a request.
    pub requests_per_second: u64,
    /// Fraction in millionths.
    pub success_rate: u32,
    pub latency: LatencyMetrics,
}

/// One observed request.
#[derive(Clone, Copy, Debug, PartialEq, Eq, Structural)]
pub struct Observation {
    /// Microseconds from request to response.
    pub latency: u64,
    /// Microseconds the server spent on the request.
    pub processing_time: u64,
    pub succeeded: bool,
}

/// The order by which latencies are sorted.
pub open spec fn ascending() -> spec_fn(u64, u64) -> bool {
    |a: u64, b: u64| a <= b
}

/// The values of `s` in ascending order.
pub open spec fn sorted_values(s: Seq<u64>) -> Seq<u64> {
    s.sort_by(ascending())
}

/// The position of a percentile, given in thousandths, in `count` sorted
/// values: `percentile * (count - 1)`, rounded to the nearest position.
pub open spec fn percentile_index(count: nat, percentile: u32) -> int {
    (percentile * (count - 1) + 500) / 1000
}

proof fn lemma_ascending_is_total()
    ensures
        total_ordering(ascending()),
{
}

/// The sorted values are the same values, in ascending order.
pub proof fn lemma_sorted_values(s: Seq<u64>)
    ensures
        sorted_values(s).len() == s.len(),
        sorted_values(s).to_multiset() == s.to_multiset(),
        forall|i: int, j: int|
            0 <= i < j < s.len() ==> sorted_values(s)[i] <= sorted_values(s)[j],
{
    lemma_ascending_is_total();
    s.lemma_sort_by_ensures(ascending());
    vstd::seq_lib::to_multiset_len(s);
    vstd::seq_lib::to_multiset_len(sorted_values(s));
    assert forall|i: int, j: int| 0 <= i < j < s.len() implies sorted_values(s)[i] <= sorted_values(
        s,
    )[j] by {
        assert(ascending()(sorted_values(s)[i], sorted_values(s)[j]));
    }
}

/// Sorts values in ascending order.
pub fn sort_ascending(values: &[u64]) -> (out: Vec<u64>)
    ensures
        out@ == sorted_values(values@),
{
    let mut out: Vec<u64> = Vec::new();
    let mut i: usize = 0;
    assert(values@.take(0) =~= Seq::<u64>::empty());
    while i < values.len()
        invariant
            0 <= i <= values@.len(),
            out@.len() == i,
            forall|a: int, b: int| 0 <= a < b < out@.len() ==> out@[a] <= out@[b],
            out@.to_multiset() == values@.take(i as int).to_multiset(),
        decreases values@.len() - i,
    {
        let v: u64 = values[i];
        let mut pos: usize = 0;
        while pos < out.len() && out[pos] <= v
            invariant
                0 <= pos <= out@.len(),
                forall|a: int| 0 <= a < pos ==> out@[a] <= v,
            decreases out@.len() - pos,
        {
            pos += 1;
        }
        let ghost before = out@;
        out.insert(pos, v);
        proof {
            vstd::seq_lib::to_multiset_insert(before, pos as int, v);
            assert(values@.take(i + 1) =~= values@.take(i as int).push(v));
            vstd::seq_lib::to_multiset_build(values@.take(i as int), v);
            assert forall|a: int, b: int| 0 <= a < b < out@.len() implies out@[a] <= out@[b] by {
                if b < pos {
                    assert(out@[a] == before[a] && out@[b] == before[b]);
                } else if b == pos {
                    assert(out@[a] == before[a]);
                } else if a < pos {
                    assert(out@[a] == before[a] && out@[b] == before[b - 1]);
                    assert(before[pos as int] > v);
                } else if a == pos {
                    assert(out@[b] == before[b - 1]);
                    if b - 1 > pos {
                        assert(before[pos as int] <= before[b - 1]);
                    }
                } else {
                    assert(out@[a] == before[a - 1] && out@[b] == before[b - 1]);
                }
            }
        }
        i += 1;
    }
    proof {
        assert(values@.take(values@.len() as int) =~= values@);
        lemma_ascending_is_total();
        values@.lemma_sort_by_ensures(ascending());
        assert(sorted_by(out@, ascending())) by {
            assert forall|a: int, b: int| 0 <= a < b < out@.len() implies #[trigger] ascending()(
                out@[a],
                out@[b],
            ) by {}
        }
        vstd::seq_lib::lemma_sorted_unique(out@, sorted_values(values@), ascending());
    }
    out
}

/// The value at a percentile, given in thousandths, of `values`: the one
/// that stands at the percentile's position when they are sorted. Fails
/// where there are no values.
pub fn calculate_percentile(values: &[u64], percentile: u32) -> (r: Result<u64, MetricsError>)
    requires
        percentile <= 1000,
    ensures
        values@.len() == 0 <==> r == Err::<u64, MetricsError>(MetricsError::NoDataAvailable),
        values@.len() > 0 ==> r == Ok::<u64, MetricsError>(
            sorted_values(values@)[percentile_index(values@.len(), percentile)],
        ),
{
    if values.len() == 0 {
        return Err(MetricsError::NoDataAvailable);
    }
    let sorted: Vec<u64> = sort_ascending(values);
    proof {
        lemma_sorted_values(values@);
    }
    let at: usize = position_of(sorted.len(), percentile);
    Ok(sorted[at])
}

/// Computes the position of a percentile among `count` sorted values.
fn position_of(count: usize, percentile: u32) -> (at: usize)
    requires
        count > 0,
        percentile <= 1000,
    ensures
        at == percentile_index(count as nat, percentile),
        at < count,
{
    let span: u128 = (count - 1) as u128;
    let share: u128 = percentile as u128;
    assert(share * span <= 1000 * span) by (nonlinear_arith)
        requires
            0 <= share <= 1000,
            0 <= span,
    ;
    let at: u128 = (share * span + 500) / 1000;
    at as usize
}

/// The latency figures that `samples` stand for, when sorted.
pub open spec fn latency_of(samples: Seq<u64>) -> LatencyMetrics {
    let sorted = sorted_values(samples);
    LatencyMetrics {
        min: sorted[0],
        max: sorted[samples.len() - 1],
        p50: sorted[percentile_index(samples.len(), 500)],
        p90: sorted[percentile_index(samples.len(), 900)],
        p99: sorted[percentile_index(samples.len(), 990)],
    }
}

/// The latency figures stand in order: the least, the median, the ninth
/// decile, the ninety-ninth percentile, the greatest.
pub proof fn lemma_latency_ordered(samples: Seq<u64>)
    requires
        samples.len() > 0,
    ensures
        latency_of(samples).min <= latency_of(samples).p50,
        latency_of(samples).p50 <= latency_of(samples).p90,
        latency_of(samples).p90 <= latency_of(samples).p99,
        latency_of(samples).p99 <= latency_of(samples).max,
{
    lemma_sorted_values(samples);
    let n = samples.len() as int;
    let a = percentile_index(samples.len(), 500);
    let b = percentile_index(samples.len(), 900);
    let c = percentile_index(samples.len(), 990);
    assert(0 <= a <= b <= c <= n - 1) by (nonlinear_arith)
        requires
            n >= 1,
            a == (500 * (n - 1) + 500) / 1000,
            b == (900 * (n - 1) + 500) / 1000,
            c == (990 * (n - 1) + 500) / 1000,
    ;
}

/// Measures the latency figures of a set of samples. Fails where there
/// are none.
pub fn measure_latency(samples: &[u64]) -> (r: Result<LatencyMetrics, MetricsError>)
    ensures
        samples@.len() == 0 <==> r == Err::<LatencyMetrics, MetricsError>(
            MetricsError::NoDataAvailable,
        ),
        samples@.len() > 0 ==> r == Ok::<LatencyMetrics, MetricsError>(latency_of(samples@)),
{
    if samples.len() == 0 {
        return Err(MetricsError::NoDataAvailable);
    }
    let sorted: Vec<u64> = sort_ascending(samples);
    proof {
        lemma_sorted_values(samples@);
    }
    let count: usize = sorted.len();
    Ok(
        LatencyMetrics {
            min: sorted[0],
            max: sorted[count - 1],
            p50: sorted[position_of(count, 500)],
            p90: sorted[position_of(count, 900)],
            p99: sorted[position_of(count, 990)],
        },
    )
}

/// The sum of the latencies of `observations`.
pub open spec fn total_latency(observations: Seq<Observation>) -> int
    decreases observations.len(),
{
    if observations.len() == 0 {
        0
    } else {
        total_latency(observations.drop_last()) + observations.last().latency
    }
}

/// The sum of the processing times of `observations`.
pub open spec fn total_processing(observations: Seq<Observation>) -> int
    decreases observations.len(),
{
    if observations.len() == 0 {
        0
    } else {
        total_processing(observations.drop_last()) + observations.last().processing_time
    }
}

/// The number of `observations` that succeeded.
pub open spec fn successes(observations: Seq<Observation>) -> int
    decreases observations.len(),
{
    if observations.len() == 0 {
        0
    } else {
        successes(observations.drop_last()) + if observations.last().succeeded {
            1int
        } else {
            0int
        }
    }
}

/// The latencies of `observations`, in their order.
pub open spec fn latencies(observations: Seq<Observation>) -> Seq<u64> {
    Seq::new(observations.len(), |i: int| observations[i].latency)
}

/// The length of the measuring window used in rates: at least one second.
pub open spec fn effective_window(window_seconds: u64) -> int {
    if window_seconds == 0 {
        1
    } else {
        window_seconds as int
    }
}

/// The performance figures that a non-empty set of observations, made
/// within `window_seconds`, stands for. Averages and rates are rounded
/// down; a rate too large for its field is capped at the field's maximum.
pub open spec fn performance_of(observations: Seq<Observation>, window_seconds: u64) -> PerformanceMetrics {
    let count = observations.len() as int;
    let rate = count * 1000 / effective_window(window_seconds);
    PerformanceMetrics {
        avg_response_time: (total_latency(observations) / count) as u64,
        avg_processing_time: (total_processing(observations) / count) as u64,
        requests_per_second: if rate <= u64::MAX {
            rate as u64
        } else {
            u64::MAX
        },
        success_rate: (successes(observations) * SCALE / count) as u32,
        latency: latency_of(latencies(observations)),
    }
}

proof fn lemma_totals_bounded(observations: Seq<Observation>)
    ensures
        0 <= total_latency(observations) <= observations.len() * u64::MAX,
        0 <= total_processing(observations) <= observations.len() * u64::MAX,
        0 <= successes(observations) <= observations.len(),
    decreases observations.len(),
{
    if observations.len() > 0 {
        lemma_totals_bounded(observations.drop_last());
        let n = observations.len() as int;
        assert((n - 1) * u64::MAX + u64::MAX == n * u64::MAX) by (nonlinear_arith);
    }
}

/// Measures the performance of a server from its observations. Fails
/// where there are none.
pub fn measure_performance(observations: &[Observation], window_seconds: u64) -> (r: Result<
    PerformanceMetrics,
    MetricsError,
>)
    ensures
        observations@.len() == 0 <==> r == Err::<PerformanceMetrics, MetricsError>(
            MetricsError::NoDataAvailable,
        ),
        observations@.len() > 0 ==> r == Ok::<PerformanceMetrics, MetricsError>(
            performance_of(observations@, window_seconds),
        ),
{
    let count: usize = observations.len();
    if count == 0 {
        return Err(MetricsError::NoDataAvailable);
    }
    let mut waited: u128 = 0;
    let mut worked: u128 = 0;
    let mut good: u128 = 0;
    let mut samples: Vec<u64> = Vec::new();
    let mut i: usize = 0;
    assert(observations@.take(0) =~= Seq::<Observation>::empty());
    while i < count
        invariant
            0 <= i <= count,
            count == observations@.len(),
            waited == total_latency(observations@.take(i as int)),
            worked == total_processing(observations@.take(i as int)),
            good == successes(observations@.take(i as int)),
            samples@ == latencies(observations@.take(i as int)),
        decreases count - i,
    {
        proof {
            let next = observations@.take(i + 1);
            assert(next.drop_last() =~= observations@.take(i as int));
            assert(next.last() == observations@[i as int]);
            lemma_totals_bounded(next);
            assert(next.len() * u64::MAX <= usize::MAX * u64::MAX) by (nonlinear_arith)
                requires
                    next.len() <= usize::MAX,
            ;
            assert(latencies(next) =~= latencies(observations@.take(i as int)).push(
                observations@[i as int].latency,
            ));
        }
        waited = waited + observations[i].latency as u128;
        worked = worked + observations[i].processing_time as u128;
        if observations[i].succeeded {
            good = good + 1;
        }
        samples.push(observations[i].latency);
        i += 1;
    }
    proof {
        assert(observations@.take(count as int) =~= observations@);
        lemma_totals_bounded(observations@);
        lemma_sorted_values(samples@);
    }
    let total: u128 = count as u128;
    let window: u128 = if window_seconds == 0 {
        1
    } else {
        window_seconds as u128
    };
    let rate: u128 = total * 1000 / window;
    let sorted: Vec<u64> = sort_ascending(samples.as_slice());
    assert(waited as int / (total as int) <= u64::MAX) by (nonlinear_arith)
        requires
            0 <= waited <= total * u64::MAX,
            total > 0,
    ;
    assert(worked as int / (total as int) <= u64::MAX) by (nonlinear_arith)
        requires
            0 <= worked <= total * u64::MAX,
            total > 0,
    ;
    assert(0 <= good * 1_000_000 <= total * 1_000_000) by (nonlinear_arith)
        requires
            0 <= good <= total,
    ;
    assert((good * 1_000_000) as int / (total as int) <= 1_000_000) by (nonlinear_arith)
        requires
            0 <= good * 1_000_000 <= total * 1_000_000,
            total > 0,
    ;
    Ok(
        PerformanceMetrics {
            avg_response_time: (waited / total) as u64,
            avg_processing_time: (worked / total) as u64,
            requests_per_second: if rate <= u64::MAX as u128 {
                rate as u64
            } else {
                u64::MAX
            },
            success_rate: (good * (SCALE as u128) / total) as u32,
            latency: LatencyMetrics {
                min: sorted[0],
                max: sorted[count - 1],
                p50: sorted[position_of(count, 500)],
                p90: sorted[position_of(count, 900)],
                p99: sorted[position_of(count, 990)],
            },
        },
    )
}

/// A response time above which a server's performance raises an alert: one
/// second.
pub const SLOW_RESPONSE: u64 = 1_000_000;

/// A success rate below which a server's performance raises an alert: 99%.
pub const LOW_SUCCESS: u32 = 990_000;

/// The performance calls for an alert: the average response time is above
/// a second or the success rate below 99%.
pub open spec fn is_degraded(m: PerformanceMetrics) -> bool {
    m.avg_response_time > SLOW_RESPONSE || m.success_rate < LOW_SUCCESS
}

/// Decides whether the performance calls for an alert.
pub fn needs_alert(m: &PerformanceMetrics) -> (r: bool)
    ensures
        r == is_degraded(*m),
{
    m.avg_response_time > SLOW_RESPONSE || m.success_rate < LOW_SUCCESS
}

} // verus!
