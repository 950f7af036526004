//! The balancer: selection of a server under the active strategy, and the
//! bookkeeping that follows a selection or an observation.

use vstd::prelude::*;
use dashmap::DashMap;
use crate::balancer::predictor::{
    copy_loads, history_after, predicted_load, record_in_history, LoadPredictor,
};
use crate::balancer::registry::{
    no_servers, registry_contents, registry_get, registry_ids, registry_insert, registry_new,
};
use crate::balancer::server::{
    at_most, dispatched, observed, released, sample_views, unobserved, BalancingPolicy,
    LoadBalancerConfig, LoadBalancerError, LoadSample, PredictiveModel, RequestFeatures,
    SampleModel, ServerId, ServerModel, ServerRecord, ServerResources, ServerStats, SCALE,
};
use crate::balancer::strategy::{
    any_eligible, eligible, is_best, is_eligible, outranks, plain_request, predictions_complete,
    rank_among, rank_server,
};

verus! {

/// How often each strategy selected a server, and how often none could be.
/// Each counter stops at `u64::MAX`.
#[derive(Clone, Copy, Debug, PartialEq, Eq, Structural)]
pub struct LoadBalancerMetrics {
    pub round_robin_selections: u64,
    pub least_connections_selections: u64,
    pub resource_selections: u64,
    pub predictive_selections: u64,
    /// Selections of the predictive strategy made by its fallback.
    pub fallback_selections: u64,
    /// Requests for which no server was eligible.
    pub rejections: u64,
}

/// The balancer as a mathematical state.
pub struct BalancerState {
    pub servers: Map<ServerId, ServerModel>,
    pub history: Seq<SampleModel>,
    pub policy: BalancingPolicy,
    pub metrics: LoadBalancerMetrics,
}

/// `count + 1`, stopping at `u64::MAX`.
pub open spec fn next_count(count: u64) -> u64 {
    if count < u64::MAX {
        (count + 1) as u64
    } else {
        count
    }
}

/// Every record of `servers` is well formed.
pub open spec fn records_well_formed(servers: Map<ServerId, ServerModel>) -> bool {
    forall|id: ServerId| servers.contains_key(id) ==> (#[trigger] servers[id]).well_formed()
}

/// The metrics after a selection under the state's policy.
pub open spec fn count_selection(s: BalancerState) -> LoadBalancerMetrics {
    match s.policy {
        BalancingPolicy::WeightedRoundRobin { weights } => LoadBalancerMetrics {
            round_robin_selections: next_count(s.metrics.round_robin_selections),
            ..s.metrics
        },
        BalancingPolicy::WeightedLeastConnections { max_connections } => LoadBalancerMetrics {
            least_connections_selections: next_count(s.metrics.least_connections_selections),
            ..s.metrics
        },
        BalancingPolicy::ResourceBased { cpu_weight, memory_weight, response_time_weight } => LoadBalancerMetrics {
            resource_selections: next_count(s.metrics.resource_selections),
            ..s.metrics
        },
        BalancingPolicy::Predictive { model } => if predictions_complete(s.servers, s.history) {
            LoadBalancerMetrics {
                predictive_selections: next_count(s.metrics.predictive_selections),
                ..s.metrics
            }
        } else {
            LoadBalancerMetrics {
                fallback_selections: next_count(s.metrics.fallback_selections),
                ..s.metrics
            }
        },
    }
}

/// The sample that records the load of one server at time `now`.
pub open spec fn single_sample(id: ServerId, load: u32, now: i64) -> SampleModel {
    SampleModel { timestamp: now, loads: seq![(id, load)] }
}

/// The balancer after a request was handed to server `id` at time `now`:
/// the server has one more active request, its load is appended to the
/// history, and the history is pruned. A server that is not on file
/// changes nothing.
pub open spec fn after_dispatch(s: BalancerState, id: ServerId, now: i64) -> BalancerState {
    if s.servers.contains_key(id) {
        BalancerState {
            servers: s.servers.insert(id, dispatched(s.servers[id])),
            history: history_after(
                s.history,
                single_sample(id, s.servers[id].current_load, now),
                now,
            ),
            ..s
        }
    } else {
        s
    }
}

/// The balancer after server `id` was selected at time `now`: the request
/// is handed to it, and the selection is counted.
pub open spec fn after_selection(s: BalancerState, id: ServerId, now: i64) -> BalancerState {
    BalancerState { metrics: count_selection(s), ..after_dispatch(s, id, now) }
}

/// The balancer after a request found no eligible server.
pub open spec fn after_rejection(s: BalancerState) -> BalancerState {
    BalancerState {
        metrics: LoadBalancerMetrics { rejections: next_count(s.metrics.rejections), ..s.metrics },
        ..s
    }
}

/// The record that an observation is taken into: the one on file, or that
/// of an unobserved server without an address.
pub open spec fn record_on_file(servers: Map<ServerId, ServerModel>, id: ServerId) -> ServerModel {
    if servers.contains_key(id) {
        servers[id]
    } else {
        unobserved(Seq::empty())
    }
}

/// The balancer after an observation of server `id` at time `now`: the
/// record takes the observation, and the load joins the history.
pub open spec fn after_sample(
    s: BalancerState,
    id: ServerId,
    load: u32,
    response_time: u64,
    now: i64,
) -> BalancerState {
    BalancerState {
        servers: s.servers.insert(id, observed(record_on_file(s.servers, id), load, response_time)),
        history: history_after(
            s.history,
            single_sample(id, at_most(load as int, SCALE as int) as u32, now),
            now,
        ),
        ..s
    }
}

/// The weights of a policy, where it has any.
pub open spec fn policy_weights(policy: BalancingPolicy) -> Seq<(ServerId, u32)> {
    match policy {
        BalancingPolicy::WeightedRoundRobin { weights } => weights@,
        BalancingPolicy::Predictive { model } => model.fallback_weights@,
        _ => Seq::empty(),
    }
}

/// Two policies of one kind rank alike where they hold the same weights.
pub open spec fn alike(a: BalancingPolicy, b: BalancingPolicy) -> bool {
    &&& policy_weights(a) == policy_weights(b)
    &&& (a is WeightedRoundRobin && b is WeightedRoundRobin) || (a is Predictive && b is Predictive)
}

proof fn lemma_policy_by_view_with(
    a: BalancingPolicy,
    b: BalancingPolicy,
    servers: Map<ServerId, ServerModel>,
    history: Seq<SampleModel>,
    request: RequestFeatures,
)
    requires
        alike(a, b),
    ensures
        any_eligible(a, servers) == any_eligible(b, servers),
        forall|id: ServerId|
            is_best(a, servers, history, request, id) == is_best(b, servers, history, request, id),
{
    assert forall|id: ServerId| eligible(a, #[trigger] servers[id]) == eligible(b, servers[id]) by {}
    assert forall|id: ServerId|
        rank_among(a, servers, history, request, id) == rank_among(
            b,
            servers,
            history,
            request,
            id,
        ) by {}
    assert forall|id: ServerId|
        is_best(a, servers, history, request, id) == is_best(b, servers, history, request, id) by {
        assert(forall|o: ServerId| eligible(a, #[trigger] servers[o]) == eligible(b, servers[o]));
    }
    if any_eligible(a, servers) {
        let w = choose|id: ServerId| servers.contains_key(id) && eligible(a, #[trigger] servers[id]);
        assert(eligible(b, servers[w]));
    }
    if any_eligible(b, servers) {
        let w = choose|id: ServerId| servers.contains_key(id) && eligible(b, #[trigger] servers[id]);
        assert(eligible(a, servers[w]));
    }
}

proof fn lemma_policy_by_view(
    a: BalancingPolicy,
    b: BalancingPolicy,
    servers: Map<ServerId, ServerModel>,
    history: Seq<SampleModel>,
)
    requires
        alike(a, b),
    ensures
        any_eligible(a, servers) == any_eligible(b, servers),
        forall|id: ServerId|
            is_best(a, servers, history, plain_request(), id) == is_best(
                b,
                servers,
                history,
                plain_request(),
                id,
            ),
{
    lemma_policy_by_view_with(a, b, servers, history, plain_request());
}

fn bump(count: u64) -> (r: u64)
    ensures
        r == next_count(count),
{
    if count < u64::MAX {
        count + 1
    } else {
        count
    }
}

/// Whether every reachable server has a load prediction.
fn all_predictable(
    servers: &DashMap<ServerId, ServerRecord>,
    ids: &Vec<ServerId>,
    predictor: &LoadPredictor,
    history: &Vec<LoadSample>,
) -> (r: bool)
    requires
        forall|i: int| 0 <= i < ids@.len() ==> registry_contents(*servers).contains_key(#[trigger] ids@[i]),
        forall|id: ServerId| registry_contents(*servers).contains_key(id) ==> #[trigger] ids@.contains(id),
    ensures
        r == predictions_complete(registry_contents(*servers), sample_views(history@)),
{
    let mut i: usize = 0;
    while i < ids.len()
        invariant
            0 <= i <= ids@.len(),
            forall|t: int| 0 <= t < ids@.len() ==> registry_contents(*servers).contains_key(#[trigger] ids@[t]),
            forall|t: int|
                0 <= t < i && registry_contents(*servers)[#[trigger] ids@[t]].availability > 0
                    ==> predicted_load(sample_views(history@), ids@[t]) is Some,
        decreases ids@.len() - i,
    {
        let id: ServerId = ids[i];
        match registry_get(servers, id) {
            Some(record) => {
                if record.availability > 0 {
                    if predictor.predict(history, id).is_err() {
                        return false;
                    }
                }
            },
            None => {},
        }
        i += 1;
    }
    proof {
        assert forall|id: ServerId|
            registry_contents(*servers).contains_key(id) && registry_contents(*servers)[id].availability
                > 0 implies (#[trigger] predicted_load(sample_views(history@), id)) is Some by {
            assert(ids@.contains(id));
            let t = choose|t: int| 0 <= t < ids@.len() && ids@[t] == id;
            assert(registry_contents(*servers)[ids@[t]].availability > 0);
        }
    }
    true
}

/// Picks the best eligible server, if any is eligible.
fn pick_best(
    servers: &DashMap<ServerId, ServerRecord>,
    policy: &BalancingPolicy,
    predictor: &LoadPredictor,
    history: &Vec<LoadSample>,
    request: &RequestFeatures,
) -> (r: (Option<ServerId>, bool))
    requires
        records_well_formed(registry_contents(*servers)),
    ensures
        r.1 == predictions_complete(registry_contents(*servers), sample_views(history@)),
        match r.0 {
            Some(id) => is_best(
                *policy,
                registry_contents(*servers),
                sample_views(history@),
                *request,
                id,
            ),
            None => !any_eligible(*policy, registry_contents(*servers)),
        },
{
    let ghost all = registry_contents(*servers);
    let ghost past = sample_views(history@);
    let ids: Vec<ServerId> = registry_ids(servers);
    let complete: bool = all_predictable(servers, &ids, predictor, history);
    let mut best: Option<(ServerId, i128, i128)> = None;
    let mut i: usize = 0;
    while i < ids.len()
        invariant
            0 <= i <= ids@.len(),
            all == registry_contents(*servers),
            past == sample_views(history@),
            records_well_formed(all),
            complete == predictions_complete(all, past),
            forall|t: int| 0 <= t < ids@.len() ==> all.contains_key(#[trigger] ids@[t]),
            match best {
                Some(b) => all.contains_key(b.0) && eligible(*policy, all[b.0]) && b.1 == rank_among(
                    *policy,
                    all,
                    past,
                    *request,
                    b.0,
                ).score && b.2 == rank_among(*policy, all, past, *request, b.0).tie_break
                    && forall|t: int|
                    0 <= t < i && ids@[t] != b.0 && eligible(*policy, all[#[trigger] ids@[t]])
                        ==> outranks(
                        b.0,
                        rank_among(*policy, all, past, *request, b.0),
                        ids@[t],
                        rank_among(*policy, all, past, *request, ids@[t]),
                    ),
                None => forall|t: int| 0 <= t < i ==> !eligible(*policy, all[#[trigger] ids@[t]]),
            },
        decreases ids@.len() - i,
    {
        let id: ServerId = ids[i];
        match registry_get(servers, id) {
            Some(record) => {
                if is_eligible(policy, &record) {
                    let prediction: Option<u32> = if complete {
                        match predictor.predict(history, id) {
                            Ok(load) => Some(load),
                            Err(_) => None,
                        }
                    } else {
                        None
                    };
                    let key = rank_server(policy, prediction, request, id, &record);
                    assert(key.0 == rank_among(*policy, all, past, *request, id).score);
                    assert(key.1 == rank_among(*policy, all, past, *request, id).tie_break);
                    match best {
                        None => {
                            best = Some((id, key.0, key.1));
                        },
                        Some(b) => {
                            let better: bool = key.0 > b.1 || (key.0 == b.1 && (key.1 > b.2 || (key.1
                                == b.2 && id < b.0)));
                            if better {
                                best = Some((id, key.0, key.1));
                            }
                        },
                    }
                }
            },
            None => {},
        }
        i += 1;
    }
    proof {
        match best {
            Some(b) => {
                assert forall|other: ServerId|
                    other != b.0 && all.contains_key(other) && eligible(
                        *policy,
                        #[trigger] all[other],
                    ) implies outranks(
                    b.0,
                    rank_among(*policy, all, past, *request, b.0),
                    other,
                    rank_among(*policy, all, past, *request, other),
                ) by {
                    assert(ids@.contains(other));
                    let t = choose|t: int| 0 <= t < ids@.len() && ids@[t] == other;
                    assert(eligible(*policy, all[ids@[t]]));
                }
            },
            None => {
                assert forall|id: ServerId| all.contains_key(id) implies !eligible(
                    *policy,
                    #[trigger] all[id],
                ) by {
                    assert(ids@.contains(id));
                    let t = choose|t: int| 0 <= t < ids@.len() && ids@[t] == id;
                    assert(!eligible(*policy, all[ids@[t]]));
                }
            },
        }
    }
    (
        match best {
            Some(b) => Some(b.0),
            None => None,
        },
        complete,
    )
}

/// The load balancer: a registry of servers, their load history, and the
/// strategy that selects among them.
pub struct AdvancedLoadBalancer {
    servers: DashMap<ServerId, ServerRecord>,
    load_history: Vec<LoadSample>,
    predictor: LoadPredictor,
    policy: BalancingPolicy,
    metrics: LoadBalancerMetrics,
}

impl View for AdvancedLoadBalancer {
    type V = BalancerState;

    closed spec fn view(&self) -> BalancerState {
        BalancerState {
            servers: registry_contents(self.servers),
            history: sample_views(self.load_history@),
            policy: self.policy,
            metrics: self.metrics,
        }
    }
}

impl AdvancedLoadBalancer {
    /// The balancer's invariant: every record is well formed.
    pub closed spec fn well_formed(&self) -> bool {
        records_well_formed(self@.servers)
    }

    /// What the balancer's invariant says of its records.
    pub proof fn lemma_well_formed(&self)
        requires
            self.well_formed(),
        ensures
            records_well_formed(self@.servers),
    {
    }

    /// A balancer without servers under the configured policy.
    pub fn new(config: LoadBalancerConfig) -> (b: Self)
        ensures
            b.well_formed(),
            b@.servers == no_servers(),
            b@.history == Seq::<SampleModel>::empty(),
            b@.policy == config.policy,
            b@.metrics == (LoadBalancerMetrics {
                round_robin_selections: 0,
                least_connections_selections: 0,
                resource_selections: 0,
                predictive_selections: 0,
                fallback_selections: 0,
                rejections: 0,
            }),
    {
        let b = AdvancedLoadBalancer {
            servers: registry_new(),
            load_history: Vec::new(),
            predictor: LoadPredictor::new(),
            policy: config.policy,
            metrics: LoadBalancerMetrics {
                round_robin_selections: 0,
                least_connections_selections: 0,
                resource_selections: 0,
                predictive_selections: 0,
                fallback_selections: 0,
                rejections: 0,
            },
        };
        assert(b@.history =~= Seq::<SampleModel>::empty());
        b
    }

    /// Selects by weighted round robin: the eligible server with the
    /// highest `weight * (1 - load) * availability`.
    pub fn select_weighted_round_robin(&self, weights: &Vec<(ServerId, u32)>) -> (r: Result<
        ServerId,
        LoadBalancerError,
    >)
        requires
            self.well_formed(),
        ensures
            match r {
                Ok(id) => is_best(
                    (BalancingPolicy::WeightedRoundRobin { weights: *weights }),
                    self@.servers,
                    self@.history,
                    plain_request(),
                    id,
                ),
                Err(e) => e == LoadBalancerError::NoServersAvailable && !any_eligible(
                    (BalancingPolicy::WeightedRoundRobin { weights: *weights }),
                    self@.servers,
                ),
            },
    {
        let policy = BalancingPolicy::WeightedRoundRobin { weights: copy_loads(weights) };
        let request = RequestFeatures { expected_load: 0 };
        proof {
            lemma_policy_by_view(policy, (BalancingPolicy::WeightedRoundRobin { weights: *weights }), self@.servers, self@.history);
        }
        let picked = pick_best(&self.servers, &policy, &self.predictor, &self.load_history, &request);
        match picked.0 {
            Some(id) => Ok(id),
            None => Err(LoadBalancerError::NoServersAvailable),
        }
    }

    /// Selects by least connections: among the reachable servers below
    /// `max_connections`, the one with the fewest active requests.
    pub fn select_weighted_least_connections(&self, max_connections: u32) -> (r: Result<
        ServerId,
        LoadBalancerError,
    >)
        requires
            self.well_formed(),
        ensures
            match r {
                Ok(id) => is_best(
                    BalancingPolicy::WeightedLeastConnections { max_connections },
                    self@.servers,
                    self@.history,
                    plain_request(),
                    id,
                ),
                Err(e) => e == LoadBalancerError::NoServersAvailable && !any_eligible(
                    BalancingPolicy::WeightedLeastConnections { max_connections },
                    self@.servers,
                ),
            },
    {
        let policy = BalancingPolicy::WeightedLeastConnections { max_connections };
        let request = RequestFeatures { expected_load: 0 };
        let picked = pick_best(&self.servers, &policy, &self.predictor, &self.load_history, &request);
        match picked.0 {
            Some(id) => Ok(id),
            None => Err(LoadBalancerError::NoServersAvailable),
        }
    }

    /// Selects by resources: the reachable server with the highest
    /// weighted sum of free CPU, free memory and inverse response time;
    /// between equal sums the lower response time wins.
    pub fn select_resource_based(
        &self,
        cpu_weight: u32,
        memory_weight: u32,
        response_time_weight: u32,
    ) -> (r: Result<ServerId, LoadBalancerError>)
        requires
            self.well_formed(),
        ensures
            match r {
                Ok(id) => is_best(
                    BalancingPolicy::ResourceBased { cpu_weight, memory_weight, response_time_weight },
                    self@.servers,
                    self@.history,
                    plain_request(),
                    id,
                ),
                Err(e) => e == LoadBalancerError::NoServersAvailable && !any_eligible(
                    BalancingPolicy::ResourceBased { cpu_weight, memory_weight, response_time_weight },
                    self@.servers,
                ),
            },
    {
        let policy = BalancingPolicy::ResourceBased { cpu_weight, memory_weight, response_time_weight };
        let request = RequestFeatures { expected_load: 0 };
        let picked = pick_best(&self.servers, &policy, &self.predictor, &self.load_history, &request);
        match picked.0 {
            Some(id) => Ok(id),
            None => Err(LoadBalancerError::NoServersAvailable),
        }
    }

    /// Selects by prediction: the reachable server with the most capacity
    /// predicted to be free once the request is added. Where some
    /// reachable server has no prediction, selects by weighted round robin
    /// with the model's fallback weights.
    pub fn select_ml_based(&self, model: &PredictiveModel, request: &RequestFeatures) -> (r: Result<
        ServerId,
        LoadBalancerError,
    >)
        requires
            self.well_formed(),
        ensures
            match r {
                Ok(id) => is_best(
                    (BalancingPolicy::Predictive { model: *model }),
                    self@.servers,
                    self@.history,
                    *request,
                    id,
                ),
                Err(e) => e == LoadBalancerError::NoServersAvailable && !any_eligible(
                    (BalancingPolicy::Predictive { model: *model }),
                    self@.servers,
                ),
            },
    {
        let policy = BalancingPolicy::Predictive {
            model: PredictiveModel { fallback_weights: copy_loads(&model.fallback_weights) },
        };
        proof {
            lemma_policy_by_view_with(
                policy,
                (BalancingPolicy::Predictive { model: *model }),
                self@.servers,
                self@.history,
                *request,
            );
        }
        let picked = pick_best(&self.servers, &policy, &self.predictor, &self.load_history, request);
        match picked.0 {
            Some(id) => Ok(id),
            None => Err(LoadBalancerError::NoServersAvailable),
        }
    }

    /// Records that a request was handed to server `id`: one more active
    /// request, and its load joins the history, which is pruned.
    pub fn update_server_stats(&mut self, id: ServerId, now: i64) -> (r: Result<(), LoadBalancerError>)
        requires
            old(self).well_formed(),
        ensures
            final(self).well_formed(),
            r is Ok,
            final(self)@ == after_dispatch(old(self)@, id, now),
    {
        match registry_get(&self.servers, id) {
            Some(mut record) => {
                let load: u32 = record.current_load;
                record.dispatch();
                let _ = registry_insert(&mut self.servers, id, record);
                let mut loads: Vec<(ServerId, u32)> = Vec::new();
                loads.push((id, load));
                assert(loads@ =~= seq![(id, load)]);
                record_in_history(&mut self.load_history, LoadSample { timestamp: now, loads }, now);
            },
            None => {},
        }
        Ok(())
    }

    /// Selects the server for a request under the active strategy and
    /// records the selection. Fails where no server is eligible.
    pub fn select_server(&mut self, request: &RequestFeatures, now: i64) -> (r: Result<
        ServerId,
        LoadBalancerError,
    >)
        requires
            old(self).well_formed(),
        ensures
            final(self).well_formed(),
            match r {
                Ok(id) => is_best(
                    old(self)@.policy,
                    old(self)@.servers,
                    old(self)@.history,
                    *request,
                    id,
                ) && final(self)@ == after_selection(old(self)@, id, now),
                Err(e) => e == LoadBalancerError::NoServersAvailable && !any_eligible(
                    old(self)@.policy,
                    old(self)@.servers,
                ) && final(self)@ == after_rejection(old(self)@),
            },
    {
        let picked = pick_best(
            &self.servers,
            &self.policy,
            &self.predictor,
            &self.load_history,
            request,
        );
        match picked.0 {
            None => {
                self.metrics.rejections = bump(self.metrics.rejections);
                Err(LoadBalancerError::NoServersAvailable)
            },
            Some(id) => {
                let ghost before = self@;
                let _ = self.update_server_stats(id, now);
                match self.policy {
                    BalancingPolicy::WeightedRoundRobin { .. } => {
                        self.metrics.round_robin_selections = bump(
                            self.metrics.round_robin_selections,
                        );
                    },
                    BalancingPolicy::WeightedLeastConnections { .. } => {
                        self.metrics.least_connections_selections = bump(
                            self.metrics.least_connections_selections,
                        );
                    },
                    BalancingPolicy::ResourceBased { .. } => {
                        self.metrics.resource_selections = bump(self.metrics.resource_selections);
                    },
                    BalancingPolicy::Predictive { .. } => {
                        if picked.1 {
                            self.metrics.predictive_selections = bump(
                                self.metrics.predictive_selections,
                            );
                        } else {
                            self.metrics.fallback_selections = bump(self.metrics.fallback_selections);
                        }
                    },
                }
                assert(self@.metrics == after_selection(before, id, now).metrics);
                Ok(id)
            },
        }
    }

    /// Takes an observation of a server's load and response time; a server
    /// seen for the first time gets a record.
    pub fn record_sample(&mut self, id: ServerId, load: u32, response_time: u64, now: i64)
        requires
            old(self).well_formed(),
        ensures
            final(self).well_formed(),
            final(self)@ == after_sample(old(self)@, id, load, response_time, now),
    {
        let mut record: ServerRecord = match registry_get(&self.servers, id) {
            Some(r) => r,
            None => ServerRecord::new(String::new()),
        };
        record.observe(load, response_time);
        let kept: u32 = record.current_load;
        let _ = registry_insert(&mut self.servers, id, record);
        let mut loads: Vec<(ServerId, u32)> = Vec::new();
        loads.push((id, kept));
        assert(loads@ =~= seq![(id, kept)]);
        record_in_history(&mut self.load_history, LoadSample { timestamp: now, loads }, now);
    }

    /// Puts a server on file under `id`, unless one is there already.
    /// Returns whether it was put on file.
    pub fn register_server(&mut self, id: ServerId, address: String) -> (added: bool)
        requires
            old(self).well_formed(),
        ensures
            final(self).well_formed(),
            added == !old(self)@.servers.contains_key(id),
            added ==> final(self)@ == (BalancerState {
                servers: old(self)@.servers.insert(id, unobserved(address@)),
                ..old(self)@
            }),
            !added ==> final(self)@ == old(self)@,
    {
        match registry_get(&self.servers, id) {
            Some(_) => false,
            None => {
                let _ = registry_insert(&mut self.servers, id, ServerRecord::new(address));
                true
            },
        }
    }

    /// Counts one request of server `id` as finished. Returns whether the
    /// server is on file.
    pub fn release(&mut self, id: ServerId) -> (known: bool)
        requires
            old(self).well_formed(),
        ensures
            final(self).well_formed(),
            known == old(self)@.servers.contains_key(id),
            known ==> final(self)@ == (BalancerState {
                servers: old(self)@.servers.insert(id, released(old(self)@.servers[id])),
                ..old(self)@
            }),
            !known ==> final(self)@ == old(self)@,
    {
        match registry_get(&self.servers, id) {
            Some(mut record) => {
                record.release();
                let _ = registry_insert(&mut self.servers, id, record);
                true
            },
            None => false,
        }
    }

    /// Sets the availability, resource usage and error rate of server `id`,
    /// each fraction capped at 1.0. Returns whether the server is on file.
    pub fn update_health(
        &mut self,
        id: ServerId,
        availability: u32,
        resources: ServerResources,
        errors_per_minute: u32,
    ) -> (known: bool)
        requires
            old(self).well_formed(),
        ensures
            final(self).well_formed(),
            known == old(self)@.servers.contains_key(id),
            known ==> final(self)@ == (BalancerState {
                servers: old(self)@.servers.insert(
                    id,
                    with_health(old(self)@.servers[id], availability, resources, errors_per_minute),
                ),
                ..old(self)@
            }),
            !known ==> final(self)@ == old(self)@,
    {
        match registry_get(&self.servers, id) {
            Some(mut record) => {
                record.availability = cap(availability);
                record.resources = ServerResources {
                    cpu_usage: cap(resources.cpu_usage),
                    memory_usage: cap(resources.memory_usage),
                    disk_usage: cap(resources.disk_usage),
                    bandwidth: cap(resources.bandwidth),
                };
                record.stats.errors_per_minute = errors_per_minute;
                let _ = registry_insert(&mut self.servers, id, record);
                true
            },
            None => false,
        }
    }

    /// A copy of the record of server `id`, if it is on file.
    pub fn server(&self, id: ServerId) -> (r: Option<ServerRecord>)
        ensures
            match r {
                Some(record) => self@.servers.contains_key(id) && record@ == self@.servers[id],
                None => !self@.servers.contains_key(id),
            },
    {
        registry_get(&self.servers, id)
    }

    /// The number of samples in the load history.
    pub fn history_len(&self) -> (n: usize)
        ensures
            n == self@.history.len(),
    {
        self.load_history.len()
    }

    /// The selection counters.
    pub fn metrics(&self) -> (m: LoadBalancerMetrics)
        ensures
            m == self@.metrics,
    {
        self.metrics
    }

    /// Predicts the load of server `id` in the next interval.
    pub fn predict_load(&self, id: ServerId) -> (r: Result<u32, LoadBalancerError>)
        ensures
            match r {
                Ok(load) => predicted_load(self@.history, id) == Some(load),
                Err(e) => e == LoadBalancerError::PredictionUnavailable && predicted_load(
                    self@.history,
                    id,
                ) is None,
            },
    {
        self.predictor.predict(&self.load_history, id)
    }
}

/// A fraction capped at 1.0.
pub open spec fn capped(value: u32) -> u32 {
    if value <= SCALE {
        value
    } else {
        SCALE
    }
}

fn cap(value: u32) -> (r: u32)
    ensures
        r == capped(value),
{
    if value <= SCALE {
        value
    } else {
        SCALE
    }
}

/// The record with new health figures.
pub open spec fn with_health(
    s: ServerModel,
    availability: u32,
    resources: ServerResources,
    errors_per_minute: u32,
) -> ServerModel {
    ServerModel {
        availability: capped(availability),
        resources: ServerResources {
            cpu_usage: capped(resources.cpu_usage),
            memory_usage: capped(resources.memory_usage),
            disk_usage: capped(resources.disk_usage),
            bandwidth: capped(resources.bandwidth),
        },
        stats: ServerStats { errors_per_minute, ..s.stats },
        ..s
    }
}

} // verus!
