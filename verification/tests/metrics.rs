use translator_core::collector::EnhancedMetricsCollector;
use translator_core::optimization::{LoadBalancer, OptimizationError, OptimizationManager};
use translator_core::balancer::server::{
    BalancingPolicy, LoadBalancerConfig, LoadBalancerError, RequestFeatures,
};
use translator_core::cache::entry::{CacheConfig, CacheError, ReplacementStrategy};
use translator_core::sampler::{
    calculate_percentile, measure_latency, measure_performance, needs_alert, sort_ascending,
    LatencyMetrics, MetricsError, Observation,
};

fn seen(latency: u64, succeeded: bool) -> Observation {
    Observation { latency, processing_time: latency / 2, succeeded }
}

#[test]
fn values_are_sorted_ascending() {
    assert_eq!(sort_ascending(&[5, 1, 4, 1, 9]), vec![1, 1, 4, 5, 9]);
    assert_eq!(sort_ascending(&[]), Vec::<u64>::new());
    assert_eq!(sort_ascending(&[u64::MAX, 0]), vec![0, u64::MAX]);
}

#[test]
fn percentiles_round_to_the_nearest_position() {
    let values = [40u64, 10, 30, 20];
    assert_eq!(calculate_percentile(&values, 0), Ok(10));
    assert_eq!(calculate_percentile(&values, 500), Ok(30));
    assert_eq!(calculate_percentile(&values, 499), Ok(20));
    assert_eq!(calculate_percentile(&values, 1000), Ok(40));
    assert_eq!(calculate_percentile(&[7], 990), Ok(7));
    assert_eq!(calculate_percentile(&[], 500), Err(MetricsError::NoDataAvailable));
    let hundred: Vec<u64> = (1..=100).rev().collect();
    assert_eq!(calculate_percentile(&hundred, 990), Ok(99));
    assert_eq!(calculate_percentile(&hundred, 900), Ok(90));
    assert_eq!(calculate_percentile(&hundred, 500), Ok(51));
}

#[test]
fn latency_figures() {
    let samples: Vec<u64> = (1..=100).rev().collect();
    assert_eq!(
        measure_latency(&samples),
        Ok(LatencyMetrics { min: 1, max: 100, p50: 51, p90: 90, p99: 99 })
    );
    assert_eq!(measure_latency(&[]), Err(MetricsError::NoDataAvailable));
    assert_eq!(
        measure_latency(&[8]),
        Ok(LatencyMetrics { min: 8, max: 8, p50: 8, p90: 8, p99: 8 })
    );
}

#[test]
fn performance_figures() {
    let observations = [seen(100, true), seen(300, true), seen(200, false), seen(401, true)];
    let m = measure_performance(&observations, 2).unwrap();
    assert_eq!(m.avg_response_time, 250);
    assert_eq!(m.avg_processing_time, 125);
    assert_eq!(m.requests_per_second, 2000);
    assert_eq!(m.success_rate, 750_000);
    assert_eq!(m.latency, LatencyMetrics { min: 100, max: 401, p50: 300, p90: 401, p99: 401 });
    assert!(needs_alert(&m));
    let zero_window = measure_performance(&observations, 0).unwrap();
    assert_eq!(zero_window.requests_per_second, 4000);
    assert_eq!(measure_performance(&[], 2), Err(MetricsError::NoDataAvailable));
    let good = measure_performance(&[seen(1_000_000, true)], 1).unwrap();
    assert!(!needs_alert(&good));
    let slow = measure_performance(&[seen(1_000_001, true)], 1).unwrap();
    assert!(needs_alert(&slow));
    let huge = measure_performance(&[seen(u64::MAX, true), seen(u64::MAX, true)], 1).unwrap();
    assert_eq!(huge.avg_response_time, u64::MAX);
}

#[test]
fn the_collector_reports_each_watched_server() {
    let mut c = EnhancedMetricsCollector::new();
    assert_eq!(c.collect_metrics(1), Ok(()));
    assert_eq!(c.alert_count(), 0);
    c.record(7, seen(100, true));
    c.record(8, seen(2_000_000, true));
    c.record(7, seen(300, true));
    assert_eq!(c.collect_metrics(1), Ok(()));
    let seven = c.performance(7).unwrap();
    assert_eq!(seven.server, 7);
    assert_eq!(seven.metrics.avg_response_time, 200);
    assert_eq!(seven.metrics.requests_per_second, 2000);
    assert!(!seven.alert);
    let eight = c.performance(8).unwrap();
    assert!(eight.alert);
    assert!(c.performance(9).is_none());
    assert_eq!(c.alert_count(), 1);
    assert_eq!(c.collect_metrics(1), Err(MetricsError::NoDataAvailable));
    assert_eq!(c.performance(7).unwrap().metrics.avg_response_time, 200);
    c.record(7, seen(50, true));
    assert_eq!(c.collect_metrics(1), Err(MetricsError::NoDataAvailable));
    c.record(8, seen(60, false));
    assert_eq!(c.collect_metrics(1), Ok(()));
    assert_eq!(c.performance(7).unwrap().metrics.avg_response_time, 50);
    assert!(c.performance(8).unwrap().alert);
}

#[test]
fn a_watched_server_without_observations_fails_the_collection() {
    let mut c = EnhancedMetricsCollector::new();
    c.watch(3);
    assert_eq!(c.collect_metrics(10), Err(MetricsError::NoDataAvailable));
    c.record(3, seen(10, true));
    c.watch(3);
    assert_eq!(c.collect_metrics(10), Ok(()));
    assert_eq!(c.performance(3).unwrap().metrics.requests_per_second, 100);
}

#[test]
fn loads_above_the_threshold_are_evened_out() {
    let mut b = LoadBalancer::new();
    assert_eq!(b.threshold, 800_000);
    assert_eq!(b.balance(), Ok(()));
    b.report(1, 900_000);
    b.report(2, 100_000);
    b.report(3, 800_000);
    b.report(2, 200_000);
    assert_eq!(b.loads, vec![(1, 900_000), (2, 200_000), (3, 800_000)]);
    assert_eq!(b.balance(), Ok(()));
    assert_eq!(b.loads, vec![(1, 633_333), (2, 200_000), (3, 800_000)]);
}

fn coordinator(max_entries: usize, batch: usize) -> OptimizationManager {
    OptimizationManager::new(
        CacheConfig {
            max_age_seconds: 60,
            max_entries,
            eviction_batch_size: batch,
            memory_pressure_threshold: 1000,
            strategy: ReplacementStrategy::Composite,
        },
        LoadBalancerConfig { policy: BalancingPolicy::WeightedRoundRobin { weights: vec![(2, 4)] } },
    )
}

#[test]
fn the_coordinator_caches_and_selects() {
    let mut m = coordinator(10, 2);
    assert_eq!(m.get_cached(b"k", 1), None);
    assert_eq!(m.cache_value(b"k", b"v", 1), Ok(()));
    assert_eq!(m.get_cached(b"k", 2), Some(b"v".to_vec()));
    let request = RequestFeatures { expected_load: 0 };
    assert_eq!(m.select_server(&request, 3), Err(LoadBalancerError::NoServersAvailable));
    m.record_sample(1, 100_000, 500, 3);
    m.record_sample(2, 100_000, 500, 3);
    assert_eq!(m.select_server(&request, 4), Ok(2));
    assert_eq!(m.collect_metrics(1, 5), Ok(()));
    assert_eq!(
        m.collect_metrics(1, 6),
        Err(OptimizationError::Metrics(MetricsError::NoDataAvailable))
    );
    assert_eq!(m.balance_load(), Ok(()));
}

#[test]
fn the_coordinator_reports_a_full_cache() {
    let mut m = coordinator(1, 0);
    assert_eq!(m.cache_value(b"a", b"v", 1), Ok(()));
    assert_eq!(
        m.cache_value(b"b", b"v", 1),
        Err(OptimizationError::Cache(CacheError::CapacityExceeded))
    );
}

#[test]
fn the_coordinator_registers_and_releases_servers() {
    let mut m = coordinator(10, 2);
    assert!(m.register_server(5, "five".to_string()));
    assert!(!m.register_server(5, "again".to_string()));
    assert!(!m.release(6));
    let request = RequestFeatures { expected_load: 0 };
    assert_eq!(m.select_server(&request, 1), Ok(5));
    assert!(m.release(5));
    assert!(m.release(5));
}

#[test]
fn the_coordinator_shows_its_counters() {
    let mut m = coordinator(10, 2);
    m.cache_value(b"k", b"v", 1).unwrap();
    m.get_cached(b"k", 2);
    m.get_cached(b"missing", 2);
    let counters = m.cache_counters();
    assert_eq!(counters.fast_hits, 1);
    assert_eq!(counters.misses, 1);
    let request = RequestFeatures { expected_load: 0 };
    assert!(m.select_server(&request, 3).is_err());
    m.record_sample(1, 10, 5_000_000, 3);
    assert_eq!(m.select_server(&request, 4), Ok(1));
    let metrics = m.balancer_metrics();
    assert_eq!(metrics.round_robin_selections, 1);
    assert_eq!(metrics.rejections, 1);
    assert_eq!(m.alert_count(), 0);
    m.collect_metrics(1, 5).unwrap();
    assert_eq!(m.alert_count(), 1);
}

#[test]
fn the_latest_report_on_a_server_is_kept() {
    let mut c = EnhancedMetricsCollector::new();
    c.record(1, seen(100, true));
    c.record(2, seen(300, true));
    assert!(c.performance(1).is_none());
    c.collect_metrics(1).unwrap();
    assert_eq!(c.performance(1).unwrap().metrics.avg_response_time, 100);
    assert_eq!(c.performance(2).unwrap().metrics.avg_response_time, 300);
    c.record(1, seen(700, true));
    assert_eq!(c.collect_metrics(1), Err(MetricsError::NoDataAvailable));
    assert_eq!(c.performance(1).unwrap().metrics.avg_response_time, 100);
    c.record(2, seen(900, true));
    c.collect_metrics(1).unwrap();
    assert_eq!(c.performance(1).unwrap().metrics.avg_response_time, 700);
    assert_eq!(c.performance(2).unwrap().metrics.avg_response_time, 900);
}
