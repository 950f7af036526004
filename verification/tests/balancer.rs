use translator_core::balancer::dispatch::AdvancedLoadBalancer;
use translator_core::balancer::predictor::{record_in_history, LoadPredictor};
use translator_core::balancer::server::{
    find_weight, BalancingPolicy, LoadBalancerConfig, LoadBalancerError, LoadSample,
    PredictiveModel, RequestFeatures, ServerRecord, ServerResources, SCALE,
};
use translator_core::balancer::strategy::{is_eligible, rank_server};

fn balancer(policy: BalancingPolicy) -> AdvancedLoadBalancer {
    AdvancedLoadBalancer::new(LoadBalancerConfig { policy })
}

fn request() -> RequestFeatures {
    RequestFeatures { expected_load: 0 }
}

fn resources(cpu: u32, memory: u32) -> ServerResources {
    ServerResources { cpu_usage: cpu, memory_usage: memory, disk_usage: 0, bandwidth: 0 }
}

#[test]
fn no_servers_means_no_selection() {
    for policy in [
        BalancingPolicy::WeightedRoundRobin { weights: vec![] },
        BalancingPolicy::WeightedLeastConnections { max_connections: 10 },
        BalancingPolicy::ResourceBased { cpu_weight: 1, memory_weight: 1, response_time_weight: 1 },
        BalancingPolicy::Predictive { model: PredictiveModel { fallback_weights: vec![] } },
    ] {
        let mut b = balancer(policy);
        assert_eq!(b.select_server(&request(), 0), Err(LoadBalancerError::NoServersAvailable));
        assert_eq!(b.metrics().rejections, 1);
        assert_eq!(b.history_len(), 0);
    }
}

#[test]
fn unreachable_servers_are_not_selected() {
    let mut b = balancer(BalancingPolicy::WeightedRoundRobin { weights: vec![] });
    b.register_server(1, "a".to_string());
    b.register_server(2, "b".to_string());
    b.update_health(1, 0, resources(0, 0), 0);
    assert_eq!(b.select_server(&request(), 0), Ok(2));
    b.update_health(2, 0, resources(0, 0), 0);
    assert_eq!(b.select_server(&request(), 0), Err(LoadBalancerError::NoServersAvailable));
}

#[test]
fn weights_default_to_one() {
    let weights = vec![(7u64, 3u32), (8, 5), (7, 9)];
    assert_eq!(find_weight(&weights, 7), 3);
    assert_eq!(find_weight(&weights, 8), 5);
    assert_eq!(find_weight(&weights, 9), 1);
    assert_eq!(find_weight(&vec![], 9), 1);
}

#[test]
fn round_robin_score_is_weight_times_free_times_availability() {
    let policy = BalancingPolicy::WeightedRoundRobin { weights: vec![(1, 3)] };
    let mut r = ServerRecord::new("a".to_string());
    r.current_load = 250_000;
    r.availability = 500_000;
    assert_eq!(rank_server(&policy, None, &request(), 1, &r), (3 * 750_000 * 500_000, 0));
    assert_eq!(rank_server(&policy, None, &request(), 2, &r), (750_000 * 500_000, 0));
}

#[test]
fn round_robin_prefers_weight_then_lower_id() {
    let mut b = balancer(BalancingPolicy::WeightedRoundRobin { weights: vec![(1, 1), (2, 3)] });
    b.register_server(1, "a".to_string());
    b.register_server(2, "b".to_string());
    assert_eq!(b.select_server(&request(), 0), Ok(2));
    let mut even = balancer(BalancingPolicy::WeightedRoundRobin { weights: vec![] });
    even.register_server(5, "a".to_string());
    even.register_server(3, "b".to_string());
    even.register_server(4, "c".to_string());
    assert_eq!(even.select_server(&request(), 0), Ok(3));
}

#[test]
fn round_robin_frequencies_follow_the_weights() {
    let mut b = balancer(BalancingPolicy::WeightedRoundRobin { weights: vec![(1, 1), (2, 3)] });
    b.register_server(1, "a".to_string());
    b.register_server(2, "b".to_string());
    let rounds: u64 = 1000;
    let mut picked = [0u64; 3];
    let mut now: i64 = 0;
    for _ in 0..rounds {
        let id = b.select_server(&request(), now).unwrap();
        picked[id as usize] += 1;
        b.release(id);
        let total = picked[1] + picked[2];
        for server in [1u64, 2] {
            let share = (picked[server as usize] * SCALE as u64 / total) as u32;
            b.record_sample(server, share, 1000, now);
        }
        now += 30;
    }
    let first = picked[1] as f64 / rounds as f64;
    let second = picked[2] as f64 / rounds as f64;
    assert!((first - 0.25).abs() < 0.01, "first share {}", first);
    assert!((second - 0.75).abs() < 0.01, "second share {}", second);
}

#[test]
fn least_connections_leaves_out_servers_at_the_cap() {
    let mut b = balancer(BalancingPolicy::WeightedLeastConnections { max_connections: 2 });
    b.register_server(1, "a".to_string());
    b.register_server(2, "b".to_string());
    assert_eq!(b.select_server(&request(), 0), Ok(1));
    assert_eq!(b.select_server(&request(), 0), Ok(2));
    assert_eq!(b.select_server(&request(), 0), Ok(1));
    assert_eq!(b.server(1).unwrap().stats.active_requests, 2);
    assert_eq!(b.select_server(&request(), 0), Ok(2));
    assert_eq!(b.select_server(&request(), 0), Err(LoadBalancerError::NoServersAvailable));
    assert!(b.release(1));
    assert_eq!(b.select_server(&request(), 0), Ok(1));
    assert!(!b.release(9));
    let m = b.metrics();
    assert_eq!(m.least_connections_selections, 5);
    assert_eq!(m.rejections, 1);
}

#[test]
fn least_connections_never_picks_a_capped_server_while_another_has_room() {
    let mut b = balancer(BalancingPolicy::WeightedLeastConnections { max_connections: 3 });
    b.register_server(1, "a".to_string());
    b.register_server(2, "b".to_string());
    for _ in 0..6 {
        let id = b.select_server(&request(), 0).unwrap();
        let record = b.server(id).unwrap();
        assert!(record.stats.active_requests <= 3);
    }
    let policy = BalancingPolicy::WeightedLeastConnections { max_connections: 3 };
    assert!(!is_eligible(&policy, &b.server(1).unwrap()));
    assert!(!is_eligible(&policy, &b.server(2).unwrap()));
}

#[test]
fn resource_based_prefers_the_idle_processor() {
    let mut b = balancer(BalancingPolicy::ResourceBased {
        cpu_weight: 1,
        memory_weight: 1,
        response_time_weight: 1,
    });
    b.register_server(1, "busy".to_string());
    b.register_server(2, "idle".to_string());
    b.update_health(1, SCALE, resources(900_000, 500_000), 0);
    b.update_health(2, SCALE, resources(100_000, 500_000), 0);
    b.record_sample(1, 0, 2000, 0);
    b.record_sample(2, 0, 2000, 0);
    assert_eq!(b.select_server(&request(), 0), Ok(2));
}

#[test]
fn resource_based_score_and_tie_break() {
    let policy =
        BalancingPolicy::ResourceBased { cpu_weight: 2, memory_weight: 3, response_time_weight: 5 };
    let mut r = ServerRecord::new("a".to_string());
    r.resources = resources(400_000, 900_000);
    r.avg_response_time = 2000;
    let expected = 2 * 600_000 + 3 * 100_000 + 5 * (1_000_000_000_000i128 / 2000);
    assert_eq!(rank_server(&policy, None, &request(), 1, &r), (expected, -2000));
    r.avg_response_time = 0;
    let unknown = 2 * 600_000 + 3 * 100_000 + 5 * 1_000_000_000_000i128;
    assert_eq!(rank_server(&policy, None, &request(), 1, &r), (unknown, 0));
    let mut b = balancer(BalancingPolicy::ResourceBased {
        cpu_weight: 1,
        memory_weight: 1,
        response_time_weight: 0,
    });
    b.register_server(1, "slow".to_string());
    b.register_server(2, "fast".to_string());
    b.record_sample(1, 0, 9000, 0);
    b.record_sample(2, 0, 3000, 0);
    assert_eq!(b.select_server(&request(), 0), Ok(2));
}

#[test]
fn selection_updates_the_record_and_the_history() {
    let mut b = balancer(BalancingPolicy::WeightedRoundRobin { weights: vec![] });
    b.register_server(4, "a".to_string());
    b.record_sample(4, 300_000, 1500, 100);
    assert_eq!(b.history_len(), 1);
    assert_eq!(b.select_server(&request(), 200), Ok(4));
    assert_eq!(b.history_len(), 2);
    let record = b.server(4).unwrap();
    assert_eq!(record.stats.active_requests, 1);
    assert_eq!(record.current_load, 300_000);
    assert_eq!(b.select_server(&request(), 100 + 3600), Ok(4));
    assert_eq!(b.history_len(), 2);
    assert_eq!(b.metrics().round_robin_selections, 2);
}

#[test]
fn observations_blend_response_times() {
    let mut r = ServerRecord::new("a".to_string());
    assert_eq!(r.availability, SCALE);
    r.observe(2_000_000, 800);
    assert_eq!(r.current_load, SCALE);
    assert_eq!(r.avg_response_time, 800);
    assert_eq!(r.stats.min_response_time, 800);
    assert_eq!(r.stats.max_response_time, 800);
    r.observe(10, 1600);
    assert_eq!(r.current_load, 10);
    assert_eq!(r.avg_response_time, 900);
    assert_eq!(r.stats.min_response_time, 800);
    assert_eq!(r.stats.max_response_time, 1600);
    r.observe(10, u64::MAX);
    assert_eq!(r.stats.max_response_time, 3_600_000_000);
    r.dispatch();
    r.dispatch();
    r.release();
    assert_eq!(r.stats.active_requests, 1);
    r.release();
    r.release();
    assert_eq!(r.stats.active_requests, 0);
}

#[test]
fn a_first_observation_puts_the_server_on_file() {
    let mut b = balancer(BalancingPolicy::WeightedRoundRobin { weights: vec![] });
    assert!(b.server(9).is_none());
    b.record_sample(9, 123, 456, 0);
    let record = b.server(9).unwrap();
    assert_eq!(record.address, "");
    assert_eq!(record.current_load, 123);
    assert_eq!(record.avg_response_time, 456);
    assert!(!b.register_server(9, "late".to_string()));
    assert!(b.register_server(10, "new".to_string()));
    assert_eq!(b.server(10).unwrap().address, "new");
    assert!(!b.update_health(11, 1, resources(0, 0), 0));
    assert!(b.update_health(10, 2_000_000, resources(3_000_000, 5), 7));
    let updated = b.server(10).unwrap();
    assert_eq!(updated.availability, SCALE);
    assert_eq!(updated.resources.cpu_usage, SCALE);
    assert_eq!(updated.resources.memory_usage, 5);
    assert_eq!(updated.stats.errors_per_minute, 7);
}

fn sample(timestamp: i64, id: u64, load: u32) -> LoadSample {
    LoadSample { timestamp, loads: vec![(id, load)] }
}

#[test]
fn the_predictor_extends_the_trend() {
    let p = LoadPredictor::new();
    let mut history = vec![sample(1, 1, 100), sample(2, 2, 900), sample(3, 1, 300)];
    assert_eq!(p.predict(&history, 1), Ok(500));
    assert_eq!(p.predict(&history, 2), Err(LoadBalancerError::PredictionUnavailable));
    assert_eq!(p.predict(&history, 3), Err(LoadBalancerError::PredictionUnavailable));
    history.push(sample(4, 1, 50));
    assert_eq!(p.predict(&history, 1), Ok(0));
    history.push(sample(5, 1, 900_000));
    assert_eq!(p.predict(&history, 1), Ok(SCALE));
    assert_eq!(p.predict(&vec![], 1), Err(LoadBalancerError::PredictionUnavailable));
}

#[test]
fn history_is_pruned_to_the_window() {
    let mut history = vec![sample(0, 1, 1), sample(100, 1, 2), sample(5000, 1, 3)];
    record_in_history(&mut history, sample(3700, 1, 4), 3700);
    let stamps: Vec<i64> = history.iter().map(|s| s.timestamp).collect();
    assert_eq!(stamps, vec![5000, 3700]);
    record_in_history(&mut history, sample(3699, 1, 5), 3699);
    assert_eq!(history.len(), 3);
    let mut edge = vec![sample(100, 1, 1)];
    record_in_history(&mut edge, sample(3699, 1, 2), 3699);
    assert_eq!(edge.len(), 2);
    record_in_history(&mut edge, sample(3700, 1, 3), 3700);
    assert_eq!(edge.iter().map(|s| s.timestamp).collect::<Vec<i64>>(), vec![3699, 3700]);
}

#[test]
fn the_predictive_strategy_falls_back_without_history() {
    let model = PredictiveModel { fallback_weights: vec![(1, 1), (2, 5)] };
    let mut b = balancer(BalancingPolicy::Predictive { model });
    b.register_server(1, "a".to_string());
    b.register_server(2, "b".to_string());
    assert_eq!(b.predict_load(1), Err(LoadBalancerError::PredictionUnavailable));
    assert_eq!(b.select_server(&request(), 0), Ok(2));
    assert_eq!(b.metrics().fallback_selections, 1);
    assert_eq!(b.metrics().predictive_selections, 0);
}

#[test]
fn the_predictive_strategy_prefers_the_falling_load() {
    let model = PredictiveModel { fallback_weights: vec![(1, 100)] };
    let mut b = balancer(BalancingPolicy::Predictive { model });
    b.record_sample(1, 200_000, 1000, 0);
    b.record_sample(1, 600_000, 1000, 1);
    b.record_sample(2, 700_000, 1000, 2);
    b.record_sample(2, 500_000, 1000, 3);
    assert_eq!(b.predict_load(1), Ok(SCALE));
    assert_eq!(b.predict_load(2), Ok(300_000));
    assert_eq!(b.select_server(&request(), 4), Ok(2));
    assert_eq!(b.metrics().predictive_selections, 1);
    let heavy = RequestFeatures { expected_load: 800_000 };
    let record = b.server(2).unwrap();
    let policy = BalancingPolicy::Predictive { model: PredictiveModel { fallback_weights: vec![] } };
    assert_eq!(rank_server(&policy, Some(300_000), &heavy, 2, &record), (0, 0));
    assert_eq!(
        rank_server(&policy, Some(300_000), &request(), 2, &record),
        (700_000 * 1_000_000, 0)
    );
}

#[test]
fn each_strategy_can_be_asked_directly() {
    let mut b = balancer(BalancingPolicy::WeightedLeastConnections { max_connections: 1 });
    assert_eq!(
        b.select_weighted_round_robin(&vec![]),
        Err(LoadBalancerError::NoServersAvailable)
    );
    b.register_server(1, "a".to_string());
    b.register_server(2, "b".to_string());
    b.update_health(1, SCALE, resources(800_000, 0), 0);
    b.update_health(2, SCALE, resources(200_000, 0), 0);
    assert_eq!(b.select_weighted_round_robin(&vec![(2, 7)]), Ok(2));
    assert_eq!(b.select_weighted_round_robin(&vec![(1, 7)]), Ok(1));
    assert_eq!(b.select_resource_based(1, 0, 0), Ok(2));
    assert_eq!(b.select_resource_based(0, 1, 1), Ok(1));
    assert_eq!(b.select_weighted_least_connections(1), Ok(1));
    assert_eq!(b.update_server_stats(1, 10), Ok(()));
    assert_eq!(b.server(1).unwrap().stats.active_requests, 1);
    assert_eq!(b.history_len(), 1);
    assert_eq!(b.select_weighted_least_connections(1), Ok(2));
    assert_eq!(b.select_weighted_least_connections(2), Ok(2));
    assert_eq!(b.select_weighted_least_connections(0), Err(LoadBalancerError::NoServersAvailable));
    assert_eq!(b.update_server_stats(9, 10), Ok(()));
    assert_eq!(b.history_len(), 1);
    let model = PredictiveModel { fallback_weights: vec![(1, 9)] };
    assert_eq!(b.select_ml_based(&model, &request()), Ok(1));
    assert_eq!(b.metrics().round_robin_selections, 0);
}
