//! The selection strategies: who is eligible, how servers are ranked, and
//! which one is best.

use vstd::prelude::*;
use crate::balancer::predictor::predicted_load;
use crate::balancer::server::{
    at_most, find_weight, weight_of, BalancingPolicy, RequestFeatures, SampleModel, ServerId,
    ServerModel, ServerRecord, SCALE,
};

verus! {

/// The numerator of the inverse response time: with the response time in
/// microseconds, `RECIPROCAL_UNIT / time` is its inverse in millionths of
/// a reciprocal second.
pub const RECIPROCAL_UNIT: u64 = 1_000_000_000_000;

/// A server's rank under a strategy: a score, and a second number that
/// decides between equal scores. Higher is better in both.
pub struct RankKey {
    pub score: int,
    pub tie_break: int,
}

/// A server can be selected under `policy`: it is reachable and, under
/// least connections, below the connection cap.
pub open spec fn eligible(policy: BalancingPolicy, s: ServerModel) -> bool {
    s.availability > 0 && match policy {
        BalancingPolicy::WeightedLeastConnections { max_connections } => s.stats.active_requests
            < max_connections,
        _ => true,
    }
}

/// Weighted round robin: `weight * (1 - load) * availability`.
pub open spec fn round_robin_score(weights: Seq<(ServerId, u32)>, id: ServerId, s: ServerModel) -> int {
    weight_of(weights, id) * (SCALE - s.current_load) * s.availability
}

/// The response time used in scores: at least one microsecond.
pub open spec fn effective_response_time(s: ServerModel) -> int {
    if s.avg_response_time == 0 {
        1
    } else {
        s.avg_response_time as int
    }
}

/// Resource-based: weighted free CPU plus weighted free memory plus the
/// weighted inverse of the response time.
pub open spec fn resource_score(
    cpu_weight: u32,
    memory_weight: u32,
    response_time_weight: u32,
    s: ServerModel,
) -> int {
    cpu_weight * (SCALE - s.resources.cpu_usage) + memory_weight * (SCALE
        - s.resources.memory_usage) + response_time_weight * (RECIPROCAL_UNIT as int
        / effective_response_time(s))
}

/// Predictive: availability times the capacity that is predicted to be
/// free once the request's expected load is added.
pub open spec fn predictive_score(s: ServerModel, predicted: u32, request: RequestFeatures) -> int {
    (SCALE - at_most(predicted + request.expected_load, SCALE as int)) * s.availability
}

/// Every reachable server of `servers` has a load prediction.
pub open spec fn predictions_complete(
    servers: Map<ServerId, ServerModel>,
    history: Seq<SampleModel>,
) -> bool {
    forall|id: ServerId|
        servers.contains_key(id) && servers[id].availability > 0 ==> (#[trigger] predicted_load(
            history,
            id,
        )) is Some
}

/// The rank of server `id` with record `s`. `prediction` is the load
/// predicted for it where the predictive strategy predicts, and `None`
/// where that strategy falls back to weighted round robin; the other
/// strategies do not look at it.
pub open spec fn rank_with(
    policy: BalancingPolicy,
    prediction: Option<u32>,
    request: RequestFeatures,
    id: ServerId,
    s: ServerModel,
) -> RankKey {
    match policy {
        BalancingPolicy::WeightedRoundRobin { weights } => RankKey {
            score: round_robin_score(weights@, id, s),
            tie_break: 0,
        },
        BalancingPolicy::WeightedLeastConnections { max_connections } => RankKey {
            score: -(s.stats.active_requests as int),
            tie_break: 0,
        },
        BalancingPolicy::ResourceBased { cpu_weight, memory_weight, response_time_weight } => RankKey {
            score: resource_score(cpu_weight, memory_weight, response_time_weight, s),
            tie_break: -(s.avg_response_time as int),
        },
        BalancingPolicy::Predictive { model } => match prediction {
            Some(load) => RankKey { score: predictive_score(s, load, request), tie_break: 0 },
            None => RankKey {
                score: round_robin_score(model.fallback_weights@, id, s),
                tie_break: 0,
            },
        },
    }
}

/// The prediction that ranks server `id` among `servers`: its predicted
/// load where every reachable server has one, else none.
pub open spec fn prediction_for(
    servers: Map<ServerId, ServerModel>,
    history: Seq<SampleModel>,
    id: ServerId,
) -> Option<u32> {
    if predictions_complete(servers, history) {
        predicted_load(history, id)
    } else {
        None
    }
}

/// Server `a` with rank `ka` is preferred to server `b` with rank `kb`:
/// higher score, then higher tie-break, then lower id.
pub open spec fn outranks(a: ServerId, ka: RankKey, b: ServerId, kb: RankKey) -> bool {
    ka.score > kb.score || (ka.score == kb.score && (ka.tie_break > kb.tie_break || (ka.tie_break
        == kb.tie_break && a < b)))
}

/// The rank of server `id` among `servers`.
pub open spec fn rank_among(
    policy: BalancingPolicy,
    servers: Map<ServerId, ServerModel>,
    history: Seq<SampleModel>,
    request: RequestFeatures,
    id: ServerId,
) -> RankKey {
    rank_with(policy, prediction_for(servers, history, id), request, id, servers[id])
}

/// Some server of `servers` is eligible.
pub open spec fn any_eligible(policy: BalancingPolicy, servers: Map<ServerId, ServerModel>) -> bool {
    exists|id: ServerId| servers.contains_key(id) && eligible(policy, #[trigger] servers[id])
}

/// Server `id` is the one to select: it is eligible and preferred to every
/// other eligible server.
pub open spec fn is_best(
    policy: BalancingPolicy,
    servers: Map<ServerId, ServerModel>,
    history: Seq<SampleModel>,
    request: RequestFeatures,
    id: ServerId,
) -> bool {
    &&& servers.contains_key(id)
    &&& eligible(policy, servers[id])
    &&& forall|other: ServerId|
        other != id && servers.contains_key(other) && eligible(policy, #[trigger] servers[other])
            ==> outranks(
            id,
            rank_among(policy, servers, history, request, id),
            other,
            rank_among(policy, servers, history, request, other),
        )
}

/// A request that adds no load: what the strategies that do not look at
/// the request are given.
pub open spec fn plain_request() -> RequestFeatures {
    RequestFeatures { expected_load: 0 }
}

/// Only the predictive strategy looks at the request and the history.
pub proof fn lemma_only_prediction_reads_request(
    policy: BalancingPolicy,
    servers: Map<ServerId, ServerModel>,
    history: Seq<SampleModel>,
    other_history: Seq<SampleModel>,
    request: RequestFeatures,
    other_request: RequestFeatures,
    id: ServerId,
)
    requires
        !(policy is Predictive),
    ensures
        is_best(policy, servers, history, request, id) == is_best(
            policy,
            servers,
            other_history,
            other_request,
            id,
        ),
{
    assert forall|a: ServerId|
        rank_among(policy, servers, history, request, a) == rank_among(
            policy,
            servers,
            other_history,
            other_request,
            a,
        ) by {}
}

/// Where no server is on file, or none of them is reachable, no server is
/// eligible under any strategy.
pub proof fn lemma_no_reachable_server_none_eligible(
    policy: BalancingPolicy,
    servers: Map<ServerId, ServerModel>,
)
    requires
        forall|id: ServerId| servers.contains_key(id) ==> (#[trigger] servers[id]).availability == 0,
    ensures
        !any_eligible(policy, servers),
        forall|history: Seq<SampleModel>, request: RequestFeatures, id: ServerId|
            !is_best(policy, servers, history, request, id),
{
}

/// At most one server is best.
pub proof fn lemma_best_is_unique(
    policy: BalancingPolicy,
    servers: Map<ServerId, ServerModel>,
    history: Seq<SampleModel>,
    request: RequestFeatures,
    a: ServerId,
    b: ServerId,
)
    requires
        is_best(policy, servers, history, request, a),
        is_best(policy, servers, history, request, b),
    ensures
        a == b,
{
    if a != b {
        assert(eligible(policy, servers[b]));
        assert(eligible(policy, servers[a]));
    }
}

/// Under least connections a server at the connection cap is never the
/// one selected, and the one selected has no more active requests than
/// any server below the cap.
pub proof fn lemma_capped_server_not_selected(
    max_connections: u32,
    servers: Map<ServerId, ServerModel>,
    history: Seq<SampleModel>,
    request: RequestFeatures,
    id: ServerId,
    other: ServerId,
)
    requires
        is_best(
            BalancingPolicy::WeightedLeastConnections { max_connections },
            servers,
            history,
            request,
            id,
        ),
        servers.contains_key(other),
    ensures
        servers[id].stats.active_requests < max_connections,
        servers[other].availability > 0 && servers[other].stats.active_requests < max_connections
            ==> servers[id].stats.active_requests <= servers[other].stats.active_requests,
{
    let policy = BalancingPolicy::WeightedLeastConnections { max_connections };
    if other != id && servers[other].availability > 0 && servers[other].stats.active_requests
        < max_connections {
        assert(eligible(policy, servers[other]));
    }
}

/// Under the resource-based strategy with a positive CPU weight, of two
/// reachable servers that differ only in CPU usage the busier one is never
/// the one selected.
pub proof fn lemma_lower_cpu_preferred(
    cpu_weight: u32,
    memory_weight: u32,
    response_time_weight: u32,
    servers: Map<ServerId, ServerModel>,
    history: Seq<SampleModel>,
    request: RequestFeatures,
    idle: ServerId,
    busy: ServerId,
)
    requires
        cpu_weight > 0,
        servers.contains_key(idle),
        servers.contains_key(busy),
        servers[idle].well_formed(),
        servers[busy].well_formed(),
        servers[idle].availability > 0,
        servers[idle].resources.cpu_usage < servers[busy].resources.cpu_usage,
        servers[idle].resources.memory_usage == servers[busy].resources.memory_usage,
        servers[idle].avg_response_time == servers[busy].avg_response_time,
    ensures
        !is_best(
            BalancingPolicy::ResourceBased { cpu_weight, memory_weight, response_time_weight },
            servers,
            history,
            request,
            busy,
        ),
{
    let policy = BalancingPolicy::ResourceBased { cpu_weight, memory_weight, response_time_weight };
    let free_idle = SCALE - servers[idle].resources.cpu_usage;
    let free_busy = SCALE - servers[busy].resources.cpu_usage;
    assert(cpu_weight * free_idle > cpu_weight * free_busy) by (nonlinear_arith)
        requires
            cpu_weight > 0,
            free_idle > free_busy,
    ;
    assert(eligible(policy, servers[idle]));
    assert(rank_among(policy, servers, history, request, idle).score > rank_among(
        policy,
        servers,
        history,
        request,
        busy,
    ).score);
}

/// Under weighted round robin, of two servers with the same load and
/// availability, with capacity to spare, the one with the lower weight is
/// never the one selected.
pub proof fn lemma_higher_weight_preferred(
    weights: Vec<(ServerId, u32)>,
    servers: Map<ServerId, ServerModel>,
    history: Seq<SampleModel>,
    request: RequestFeatures,
    heavy: ServerId,
    light: ServerId,
)
    requires
        servers.contains_key(heavy),
        servers.contains_key(light),
        weight_of(weights@, heavy) > weight_of(weights@, light),
        servers[heavy].current_load == servers[light].current_load,
        servers[heavy].availability == servers[light].availability,
        servers[heavy].availability > 0,
        servers[heavy].current_load < SCALE,
    ensures
        !is_best(BalancingPolicy::WeightedRoundRobin { weights }, servers, history, request, light),
{
    let policy = BalancingPolicy::WeightedRoundRobin { weights };
    let free = SCALE - servers[heavy].current_load;
    let reach = servers[heavy].availability as int;
    let wh = weight_of(weights@, heavy) as int;
    let wl = weight_of(weights@, light) as int;
    assert(wh * free * reach > wl * free * reach) by (nonlinear_arith)
        requires
            wh > wl,
            free > 0,
            reach > 0,
    ;
    assert(eligible(policy, servers[heavy]));
}

/// Decides whether a server can be selected under `policy`.
pub fn is_eligible(policy: &BalancingPolicy, record: &ServerRecord) -> (r: bool)
    ensures
        r == eligible(*policy, record@),
{
    if record.availability == 0 {
        return false;
    }
    match policy {
        BalancingPolicy::WeightedLeastConnections { max_connections } => {
            record.stats.active_requests < *max_connections as u64
        },
        _ => true,
    }
}

fn weighted_capacity(weights: &Vec<(ServerId, u32)>, id: ServerId, record: &ServerRecord) -> (r: i128)
    requires
        record@.well_formed(),
    ensures
        r == round_robin_score(weights@, id, record@),
{
    let weight: i128 = find_weight(weights, id) as i128;
    let free: i128 = (SCALE - record.current_load) as i128;
    let reach: i128 = record.availability as i128;
    assert(0 <= weight * free <= 0xffff_ffff * 1_000_000) by (nonlinear_arith)
        requires
            0 <= weight <= 0xffff_ffff,
            0 <= free <= 1_000_000,
    ;
    assert(0 <= (weight * free) * reach <= 0xffff_ffff * 1_000_000 * 1_000_000) by (nonlinear_arith)
        requires
            0 <= weight * free <= 0xffff_ffff * 1_000_000,
            0 <= reach <= 1_000_000,
    ;
    weight * free * reach
}

fn weighted_resources(
    cpu_weight: u32,
    memory_weight: u32,
    response_time_weight: u32,
    record: &ServerRecord,
) -> (r: i128)
    requires
        record@.well_formed(),
    ensures
        r == resource_score(cpu_weight, memory_weight, response_time_weight, record@),
{
    let cw: i128 = cpu_weight as i128;
    let mw: i128 = memory_weight as i128;
    let rw: i128 = response_time_weight as i128;
    let free_cpu: i128 = (SCALE - record.resources.cpu_usage) as i128;
    let free_memory: i128 = (SCALE - record.resources.memory_usage) as i128;
    let time: u64 = if record.avg_response_time == 0 {
        1
    } else {
        record.avg_response_time
    };
    let speed: i128 = (RECIPROCAL_UNIT / time) as i128;
    assert(0 <= cw * free_cpu <= 0xffff_ffff * 1_000_000) by (nonlinear_arith)
        requires
            0 <= cw <= 0xffff_ffff,
            0 <= free_cpu <= 1_000_000,
    ;
    assert(0 <= mw * free_memory <= 0xffff_ffff * 1_000_000) by (nonlinear_arith)
        requires
            0 <= mw <= 0xffff_ffff,
            0 <= free_memory <= 1_000_000,
    ;
    assert(0 <= rw * speed <= 0xffff_ffff * 1_000_000_000_000) by (nonlinear_arith)
        requires
            0 <= rw <= 0xffff_ffff,
            0 <= speed <= 1_000_000_000_000,
    ;
    cw * free_cpu + mw * free_memory + rw * speed
}

fn predicted_capacity(record: &ServerRecord, predicted: u32, request: &RequestFeatures) -> (r: i128)
    requires
        record@.well_formed(),
    ensures
        r == predictive_score(record@, predicted, *request),
{
    let expected: u64 = predicted as u64 + request.expected_load as u64;
    let taken: u64 = if expected <= SCALE as u64 {
        expected
    } else {
        SCALE as u64
    };
    let free: i128 = (SCALE as u64 - taken) as i128;
    let reach: i128 = record.availability as i128;
    assert(0 <= free * reach <= 1_000_000 * 1_000_000) by (nonlinear_arith)
        requires
            0 <= free <= 1_000_000,
            0 <= reach <= 1_000_000,
    ;
    free * reach
}

/// Computes the rank of a server: its score and its tie-break.
pub fn rank_server(
    policy: &BalancingPolicy,
    prediction: Option<u32>,
    request: &RequestFeatures,
    id: ServerId,
    record: &ServerRecord,
) -> (r: (i128, i128))
    requires
        record@.well_formed(),
    ensures
        r.0 == rank_with(*policy, prediction, *request, id, record@).score,
        r.1 == rank_with(*policy, prediction, *request, id, record@).tie_break,
{
    match policy {
        BalancingPolicy::WeightedRoundRobin { weights } => (weighted_capacity(weights, id, record), 0),
        BalancingPolicy::WeightedLeastConnections { max_connections } => (
            -(record.stats.active_requests as i128),
            0,
        ),
        BalancingPolicy::ResourceBased { cpu_weight, memory_weight, response_time_weight } => (
            weighted_resources(*cpu_weight, *memory_weight, *response_time_weight, record),
            -(record.avg_response_time as i128),
        ),
        BalancingPolicy::Predictive { model } => match prediction {
            Some(load) => (predicted_capacity(record, load, request), 0),
            None => (weighted_capacity(&model.fallback_weights, id, record), 0),
        },
    }
}

} // verus!
