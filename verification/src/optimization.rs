//! The optimization coordinator: one owner for the cache, the balancer and
//! the metrics collector, and the only thing collaborators talk to.

use vstd::prelude::*;
use crate::balancer::dispatch::{
    after_rejection, after_sample, after_selection, records_well_formed, AdvancedLoadBalancer,
    BalancerState, LoadBalancerMetrics,
};
use crate::balancer::registry::no_servers;
use crate::balancer::server::{
    released, unobserved, LoadBalancerConfig, LoadBalancerError, RequestFeatures, SampleModel, ServerId, SCALE,
};
use crate::balancer::strategy::{any_eligible, is_best};
use crate::cache::entry::{CacheConfig, CacheError, CachePolicy};
use crate::cache::manager::HybridCacheManager;
use crate::cache::model::{
    empty_cache, get_outcome, relieved, set_outcome, CacheCounters, CacheState,
};
use crate::collector::{
    alerts_in, all_observed, collected, no_reports, with_observation, CollectorState,
    EnhancedMetricsCollector, ObservationsModel, PerformanceReport,
};
use crate::sampler::{MetricsError, Observation};

verus! {

/// Why a coordinator operation fails.
#[derive(Clone, Copy, Debug, PartialEq, Eq, Structural)]
pub enum OptimizationError {
    Cache(CacheError),
    Balancer(LoadBalancerError),
    Metrics(MetricsError),
}

/// The load above which `LoadBalancer::balance` evens a server out: 80%.
pub const BALANCE_THRESHOLD: u32 = 800_000;

/// The sum of the loads of `loads`.
pub open spec fn total_load(loads: Seq<(ServerId, u32)>) -> int
    decreases loads.len(),
{
    if loads.len() == 0 {
        0
    } else {
        total_load(loads.drop_last()) + loads.last().1
    }
}

/// The average of the loads of `loads`, rounded down; zero where there are
/// none.
pub open spec fn average_load(loads: Seq<(ServerId, u32)>) -> int {
    if loads.len() == 0 {
        0
    } else {
        total_load(loads) / (loads.len() as int)
    }
}

/// The loads after balancing: every load above `threshold` is set to the
/// average of all loads, the others stay.
pub open spec fn balanced(loads: Seq<(ServerId, u32)>, threshold: u32) -> Seq<(ServerId, u32)> {
    Seq::new(
        loads.len(),
        |i: int|
            if loads[i].1 > threshold {
                (loads[i].0, average_load(loads) as u32)
            } else {
                loads[i]
            },
    )
}

proof fn lemma_total_load_bounded(loads: Seq<(ServerId, u32)>)
    ensures
        0 <= total_load(loads) <= loads.len() * u32::MAX,
    decreases loads.len(),
{
    if loads.len() > 0 {
        lemma_total_load_bounded(loads.drop_last());
        let n = loads.len() as int;
        assert((n - 1) * u32::MAX + u32::MAX == n * u32::MAX) by (nonlinear_arith);
    }
}

/// The position of `server` among `loads`, or their number where it is
/// not among them.
pub open spec fn load_position(loads: Seq<(ServerId, u32)>, server: ServerId) -> int
    decreases loads.len(),
{
    if loads.len() == 0 {
        0
    } else if loads[0].0 == server {
        0
    } else {
        1 + load_position(loads.drop_first(), server)
    }
}

/// The loads after `server` reported `load`: its pair is replaced, or added
/// at the end where it had none.
pub open spec fn with_load(loads: Seq<(ServerId, u32)>, server: ServerId, load: u32) -> Seq<
    (ServerId, u32),
> {
    let at = load_position(loads, server);
    if at < loads.len() {
        loads.update(at, (server, load))
    } else {
        loads.push((server, load))
    }
}

proof fn lemma_load_position_found(loads: Seq<(ServerId, u32)>, server: ServerId, at: int)
    requires
        0 <= at <= loads.len(),
        forall|i: int| 0 <= i < at ==> (#[trigger] loads[i]).0 != server,
        at < loads.len() ==> loads[at].0 == server,
    ensures
        load_position(loads, server) == at,
    decreases loads.len(),
{
    if loads.len() > 0 && at > 0 {
        let rest = loads.drop_first();
        assert(loads[0].0 != server);
        assert forall|i: int| 0 <= i < at - 1 implies (#[trigger] rest[i]).0 != server by {
            assert(rest[i] == loads[i + 1]);
        }
        lemma_load_position_found(rest, server, at - 1);
    }
}

/// A simple balancer of reported loads: what lies above the threshold is
/// evened out to the average.
pub struct LoadBalancer {
    pub loads: Vec<(ServerId, u32)>,
    pub threshold: u32,
}

impl LoadBalancer {
    /// A balancer without loads, with the threshold at 80%.
    pub fn new() -> (b: Self)
        ensures
            b.loads@ == Seq::<(ServerId, u32)>::empty(),
            b.threshold == BALANCE_THRESHOLD,
    {
        LoadBalancer { loads: Vec::new(), threshold: BALANCE_THRESHOLD }
    }

    /// Takes the load that `server` reports.
    pub fn report(&mut self, server: ServerId, load: u32)
        ensures
            final(self).loads@ == with_load(old(self).loads@, server, load),
            final(self).threshold == old(self).threshold,
    {
        let mut at: usize = 0;
        while at < self.loads.len() && self.loads[at].0 != server
            invariant
                0 <= at <= self.loads@.len(),
                forall|i: int| 0 <= i < at ==> (#[trigger] self.loads@[i]).0 != server,
            decreases self.loads@.len() - at,
        {
            at += 1;
        }
        proof {
            lemma_load_position_found(self.loads@, server, at as int);
        }
        if at < self.loads.len() {
            self.loads[at] = (server, load);
        } else {
            self.loads.push((server, load));
        }
    }

    /// Sets every load above the threshold to the average of all loads.
    pub fn balance(&mut self) -> (r: Result<(), OptimizationError>)
        ensures
            r is Ok,
            final(self).loads@ == balanced(old(self).loads@, old(self).threshold),
            final(self).threshold == old(self).threshold,
    {
        let count: usize = self.loads.len();
        if count == 0 {
            assert(self.loads@ =~= balanced(old(self).loads@, old(self).threshold));
            return Ok(());
        }
        let ghost before = self.loads@;
        let mut sum: u128 = 0;
        let mut i: usize = 0;
        assert(before.take(0) =~= Seq::<(ServerId, u32)>::empty());
        while i < count
            invariant
                0 <= i <= count,
                count == self.loads@.len(),
                self.loads@ == before,
                sum == total_load(before.take(i as int)),
            decreases count - i,
        {
            proof {
                let next = before.take(i + 1);
                assert(next.drop_last() =~= before.take(i as int));
                assert(next.last() == before[i as int]);
                lemma_total_load_bounded(next);
                assert(next.len() * u32::MAX <= usize::MAX * u32::MAX) by (nonlinear_arith)
                    requires
                        next.len() <= usize::MAX,
                ;
            }
            sum = sum + self.loads[i].1 as u128;
            i += 1;
        }
        proof {
            assert(before.take(count as int) =~= before);
            lemma_total_load_bounded(before);
        }
        let total: u128 = count as u128;
        assert(sum as int / (total as int) <= u32::MAX) by (nonlinear_arith)
            requires
                0 <= sum <= total * u32::MAX,
                total > 0,
        ;
        let average: u32 = (sum / total) as u32;
        let threshold: u32 = self.threshold;
        let mut j: usize = 0;
        while j < count
            invariant
                0 <= j <= count,
                count == self.loads@.len(),
                count == before.len(),
                threshold == self.threshold,
                threshold == old(self).threshold,
                average == average_load(before),
                forall|t: int| 0 <= t < j ==> #[trigger] self.loads@[t] == balanced(before, threshold)[t],
                forall|t: int| j <= t < count ==> #[trigger] self.loads@[t] == before[t],
            decreases count - j,
        {
            if self.loads[j].1 > threshold {
                let id: ServerId = self.loads[j].0;
                self.loads[j] = (id, average);
            }
            j += 1;
        }
        assert(self.loads@ =~= balanced(before, threshold));
        Ok(())
    }
}

/// The coordinator as a mathematical state.
pub struct OptimizationState {
    pub cache: CacheState,
    pub balancer: BalancerState,
    pub collector: CollectorState,
    pub reported: Seq<(ServerId, u32)>,
}

/// The optimization manager.
pub struct OptimizationManager {
    cache_manager: HybridCacheManager,
    load_balancer: AdvancedLoadBalancer,
    metrics: EnhancedMetricsCollector,
    rebalancer: LoadBalancer,
}

impl View for OptimizationManager {
    type V = OptimizationState;

    closed spec fn view(&self) -> OptimizationState {
        OptimizationState {
            cache: self.cache_manager@,
            balancer: self.load_balancer@,
            collector: self.metrics@,
            reported: self.rebalancer.loads@,
        }
    }
}

impl OptimizationManager {
    /// The coordinator's invariant: those of its cache and its balancer.
    pub closed spec fn well_formed(&self) -> bool {
        &&& self.cache_manager.well_formed()
        &&& self.load_balancer.well_formed()
        &&& self.rebalancer.threshold == BALANCE_THRESHOLD
    }

    /// What the coordinator's invariant says of its cache and its servers.
    pub proof fn lemma_well_formed(&self)
        requires
            self.well_formed(),
        ensures
            self@.cache.well_formed(),
            records_well_formed(self@.balancer.servers),
    {
        self.cache_manager.lemma_well_formed();
        self.load_balancer.lemma_well_formed();
    }

    /// A coordinator with an empty cache and a balancer without servers.
    pub fn new(cache: CacheConfig, balancer: LoadBalancerConfig) -> (m: Self)
        ensures
            m.well_formed(),
            m@.cache == empty_cache(
                (CachePolicy {
                    max_age: cache.max_age_seconds,
                    max_entries: cache.max_entries,
                    eviction_batch_size: cache.eviction_batch_size,
                    memory_pressure_threshold: cache.memory_pressure_threshold,
                    strategy: cache.strategy,
                }),
            ),
            m@.balancer.servers == no_servers(),
            m@.balancer.history == Seq::<SampleModel>::empty(),
            m@.balancer.policy == balancer.policy,
            m@.collector.pending == Seq::<ObservationsModel>::empty(),
            m@.collector.reports == Seq::<PerformanceReport>::empty(),
            m@.collector.performance == no_reports(),
            m@.reported == Seq::<(ServerId, u32)>::empty(),
    {
        OptimizationManager {
            cache_manager: HybridCacheManager::new(cache),
            load_balancer: AdvancedLoadBalancer::new(balancer),
            metrics: EnhancedMetricsCollector::new(),
            rebalancer: LoadBalancer::new(),
        }
    }

    /// Stores `value` under `key` in the cache.
    pub fn cache_value(&mut self, key: &[u8], value: &[u8], now: i64) -> (r: Result<
        (),
        OptimizationError,
    >)
        requires
            old(self).well_formed(),
        ensures
            final(self).well_formed(),
            final(self)@ == (OptimizationState {
                cache: set_outcome(old(self)@.cache, key@, value@, now).0,
                ..old(self)@
            }),
            match r {
                Ok(_) => set_outcome(old(self)@.cache, key@, value@, now).1 is Ok,
                Err(e) => set_outcome(old(self)@.cache, key@, value@, now).1 is Err && e
                    == OptimizationError::Cache(CacheError::CapacityExceeded),
            },
    {
        match self.cache_manager.set(key, value, now) {
            Ok(_) => Ok(()),
            Err(e) => Err(OptimizationError::Cache(e)),
        }
    }

    /// Looks `key` up in the cache.
    pub fn get_cached(&mut self, key: &[u8], now: i64) -> (r: Option<Vec<u8>>)
        requires
            old(self).well_formed(),
        ensures
            final(self).well_formed(),
            final(self)@ == (OptimizationState {
                cache: get_outcome(old(self)@.cache, key@, now).0,
                ..old(self)@
            }),
            match r {
                Some(v) => get_outcome(old(self)@.cache, key@, now).1 == Some(v@),
                None => get_outcome(old(self)@.cache, key@, now).1 is None,
            },
    {
        self.cache_manager.get(key, now)
    }

    /// Selects the server for a request.
    pub fn select_server(&mut self, request: &RequestFeatures, now: i64) -> (r: Result<
        ServerId,
        LoadBalancerError,
    >)
        requires
            old(self).well_formed(),
        ensures
            final(self).well_formed(),
            match r {
                Ok(id) => is_best(
                    old(self)@.balancer.policy,
                    old(self)@.balancer.servers,
                    old(self)@.balancer.history,
                    *request,
                    id,
                ) && final(self)@ == (OptimizationState {
                    balancer: after_selection(old(self)@.balancer, id, now),
                    ..old(self)@
                }),
                Err(e) => e == LoadBalancerError::NoServersAvailable && !any_eligible(
                    old(self)@.balancer.policy,
                    old(self)@.balancer.servers,
                ) && final(self)@ == (OptimizationState {
                    balancer: after_rejection(old(self)@.balancer),
                    ..old(self)@
                }),
            },
    {
        self.load_balancer.select_server(request, now)
    }

    /// Takes an observation of a server: its load and the response time of
    /// one successful request. The balancer, the collector and the table
    /// of reported loads each take their part of it.
    pub fn record_sample(&mut self, server: ServerId, load: u32, response_time: u64, now: i64)
        requires
            old(self).well_formed(),
        ensures
            final(self).well_formed(),
            final(self)@.cache == old(self)@.cache,
            final(self)@.balancer == after_sample(
                old(self)@.balancer,
                server,
                load,
                response_time,
                now,
            ),
            final(self)@.collector == (CollectorState {
                pending: with_observation(
                    old(self)@.collector.pending,
                    server,
                    (Observation {
                        latency: response_time,
                        processing_time: response_time,
                        succeeded: true,
                    }),
                ),
                ..old(self)@.collector
            }),
            final(self)@.reported == with_load(
                old(self)@.reported,
                server,
                if load <= SCALE {
                    load
                } else {
                    SCALE
                },
            ),
    {
        self.load_balancer.record_sample(server, load, response_time, now);
        self.metrics.record(
            server,
            Observation { latency: response_time, processing_time: response_time, succeeded: true },
        );
        let kept: u32 = if load <= SCALE {
            load
        } else {
            SCALE
        };
        self.rebalancer.report(server, kept);
    }

    /// Puts a server on file with the balancer, unless one is on file under
    /// this id. Returns whether it was put on file.
    pub fn register_server(&mut self, id: ServerId, address: String) -> (added: bool)
        requires
            old(self).well_formed(),
        ensures
            final(self).well_formed(),
            added == !old(self)@.balancer.servers.contains_key(id),
            added ==> final(self)@ == (OptimizationState {
                balancer: (BalancerState {
                    servers: old(self)@.balancer.servers.insert(id, unobserved(address@)),
                    ..old(self)@.balancer
                }),
                ..old(self)@
            }),
            !added ==> final(self)@ == old(self)@,
    {
        self.load_balancer.register_server(id, address)
    }

    /// Counts one request of a server as finished. Returns whether the
    /// server is on file.
    pub fn release(&mut self, id: ServerId) -> (known: bool)
        requires
            old(self).well_formed(),
        ensures
            final(self).well_formed(),
            known == old(self)@.balancer.servers.contains_key(id),
            known ==> final(self)@ == (OptimizationState {
                balancer: (BalancerState {
                    servers: old(self)@.balancer.servers.insert(
                        id,
                        released(old(self)@.balancer.servers[id]),
                    ),
                    ..old(self)@.balancer
                }),
                ..old(self)@
            }),
            !known ==> final(self)@ == old(self)@,
    {
        self.load_balancer.release(id)
    }

    /// The cache's counters: hits by tier, misses, evictions, promotions.
    pub fn cache_counters(&self) -> (c: CacheCounters)
        ensures
            c == self@.cache.counters,
    {
        self.cache_manager.counters()
    }

    /// The balancer's counters: selections by strategy, and rejections.
    pub fn balancer_metrics(&self) -> (m: LoadBalancerMetrics)
        ensures
            m == self@.balancer.metrics,
    {
        self.load_balancer.metrics()
    }

    /// The number of servers whose last performance report calls for an
    /// alert.
    pub fn alert_count(&self) -> (n: usize)
        ensures
            n == alerts_in(self@.collector.reports),
    {
        self.metrics.alert_count()
    }

    /// Evens out the reported loads that lie above the threshold.
    pub fn balance_load(&mut self) -> (r: Result<(), OptimizationError>)
        requires
            old(self).well_formed(),
        ensures
            final(self).well_formed(),
            r is Ok,
            final(self)@ == (OptimizationState {
                reported: balanced(old(self)@.reported, BALANCE_THRESHOLD),
                ..old(self)@
            }),
    {
        self.rebalancer.balance()
    }

    /// Makes the performance reports of the watched servers and, where that
    /// succeeds, lets the cache relieve pressure. Fails, changing nothing,
    /// where a watched server has no observation.
    pub fn collect_metrics(&mut self, window_seconds: u64, now: i64) -> (r: Result<
        (),
        OptimizationError,
    >)
        requires
            old(self).well_formed(),
        ensures
            final(self).well_formed(),
            final(self)@.balancer == old(self)@.balancer,
            final(self)@.reported == old(self)@.reported,
            all_observed(old(self)@.collector.pending) ==> r is Ok && final(self)@.collector
                == collected(old(self)@.collector, window_seconds) && final(self)@.cache
                == relieved(old(self)@.cache, now),
            !all_observed(old(self)@.collector.pending) ==> r == Err::<(), OptimizationError>(
                OptimizationError::Metrics(MetricsError::NoDataAvailable),
            ) && final(self)@ == old(self)@,
    {
        match self.metrics.collect_metrics(window_seconds) {
            Ok(_) => {
                let _ = self.cache_manager.evict_if_needed(now);
                Ok(())
            },
            Err(e) => Err(OptimizationError::Metrics(e)),
        }
    }
}

} // verus!
