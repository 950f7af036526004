//! Server records and the values the balancer works on.
//!
//! Fractions (load, availability, resource usage) are fixed-point numbers
//! in millionths: `SCALE` stands for 1.0. Response times are microseconds.

use vstd::prelude::*;

verus! {

/// Identifies one worker.
pub type ServerId = u64;

/// The fixed-point representation of 1.0.
pub const SCALE: u32 = 1_000_000;

/// The longest response time a record holds: one hour, in microseconds.
pub const MAX_RESPONSE_TIME: u64 = 3_600_000_000;

/// Seconds of load history that are kept.
pub const RETENTION_SECONDS: i64 = 3600;

/// Resource usage of a server, each a fraction in millionths.
#[derive(Clone, Copy, Debug, PartialEq, Eq, Structural)]
pub struct ServerResources {
    pub cpu_usage: u32,
    pub memory_usage: u32,
    pub disk_usage: u32,
    pub bandwidth: u32,
}

/// Request statistics of a server.
#[derive(Clone, Copy, Debug, PartialEq, Eq, Structural)]
pub struct ServerStats {
    /// Requests handed to the server and not yet released.
    pub active_requests: u64,
    /// Microseconds.
    pub min_response_time: u64,
    /// Microseconds.
    pub max_response_time: u64,
    pub errors_per_minute: u32,
}

/// What the balancer knows of one server.
#[derive(Clone, Debug)]
pub struct ServerRecord {
    pub address: String,
    /// Fraction in millionths.
    pub current_load: u32,
    /// Microseconds.
    pub avg_response_time: u64,
    /// Fraction in millionths; zero means unreachable.
    pub availability: u32,
    pub resources: ServerResources,
    pub stats: ServerStats,
}

/// A server record as a mathematical value.
pub struct ServerModel {
    pub address: Seq<char>,
    pub current_load: u32,
    pub avg_response_time: u64,
    pub availability: u32,
    pub resources: ServerResources,
    pub stats: ServerStats,
}

impl View for ServerRecord {
    type V = ServerModel;

    open spec fn view(&self) -> ServerModel {
        ServerModel {
            address: self.address@,
            current_load: self.current_load,
            avg_response_time: self.avg_response_time,
            availability: self.availability,
            resources: self.resources,
            stats: self.stats,
        }
    }
}

impl ServerModel {
    /// Every fraction is at most 1.0 and the response times are at most
    /// an hour.
    pub open spec fn well_formed(self) -> bool {
        &&& self.current_load <= SCALE
        &&& self.availability <= SCALE
        &&& self.resources.cpu_usage <= SCALE
        &&& self.resources.memory_usage <= SCALE
        &&& self.resources.disk_usage <= SCALE
        &&& self.resources.bandwidth <= SCALE
        &&& self.avg_response_time <= MAX_RESPONSE_TIME
        &&& self.stats.min_response_time <= MAX_RESPONSE_TIME
        &&& self.stats.max_response_time <= MAX_RESPONSE_TIME
    }
}

/// The record of a server of which nothing has been observed yet: idle,
/// fully available, no response time on record.
pub open spec fn unobserved(address: Seq<char>) -> ServerModel {
    ServerModel {
        address,
        current_load: 0,
        avg_response_time: 0,
        availability: SCALE,
        resources: ServerResources { cpu_usage: 0, memory_usage: 0, disk_usage: 0, bandwidth: 0 },
        stats: ServerStats {
            active_requests: 0,
            min_response_time: 0,
            max_response_time: 0,
            errors_per_minute: 0,
        },
    }
}

/// `value`, or `limit` where it is larger.
pub open spec fn at_most(value: int, limit: int) -> int {
    if value <= limit {
        value
    } else {
        limit
    }
}

/// The average response time after an observation of `observed`
/// microseconds: the observation itself where none was on record, else
/// seven parts old and one part new.
pub open spec fn blended_response_time(recorded: u64, observed: u64) -> u64 {
    let fresh = at_most(observed as int, MAX_RESPONSE_TIME as int);
    if recorded == 0 {
        fresh as u64
    } else {
        ((recorded * 7 + fresh) / 8) as u64
    }
}

/// The record after an observation of load and response time.
pub open spec fn observed(s: ServerModel, load: u32, response_time: u64) -> ServerModel {
    let fresh = at_most(response_time as int, MAX_RESPONSE_TIME as int) as u64;
    ServerModel {
        current_load: at_most(load as int, SCALE as int) as u32,
        avg_response_time: blended_response_time(s.avg_response_time, response_time),
        stats: ServerStats {
            min_response_time: if s.avg_response_time == 0 || fresh < s.stats.min_response_time {
                fresh
            } else {
                s.stats.min_response_time
            },
            max_response_time: if fresh > s.stats.max_response_time {
                fresh
            } else {
                s.stats.max_response_time
            },
            ..s.stats
        },
        ..s
    }
}

/// The record after one more request was handed to the server.
pub open spec fn dispatched(s: ServerModel) -> ServerModel {
    ServerModel {
        stats: ServerStats {
            active_requests: if s.stats.active_requests < u64::MAX {
                (s.stats.active_requests + 1) as u64
            } else {
                s.stats.active_requests
            },
            ..s.stats
        },
        ..s
    }
}

/// The record after one request was released.
pub open spec fn released(s: ServerModel) -> ServerModel {
    ServerModel {
        stats: ServerStats {
            active_requests: if s.stats.active_requests > 0 {
                (s.stats.active_requests - 1) as u64
            } else {
                0
            },
            ..s.stats
        },
        ..s
    }
}

impl ServerRecord {
    /// The record of a server at `address` of which nothing has been
    /// observed yet.
    pub fn new(address: String) -> (r: Self)
        ensures
            r@ == unobserved(address@),
            r@.well_formed(),
    {
        ServerRecord {
            address,
            current_load: 0,
            avg_response_time: 0,
            availability: SCALE,
            resources: ServerResources { cpu_usage: 0, memory_usage: 0, disk_usage: 0, bandwidth: 0 },
            stats: ServerStats {
                active_requests: 0,
                min_response_time: 0,
                max_response_time: 0,
                errors_per_minute: 0,
            },
        }
    }

    /// Takes an observation of load and response time into the record.
    pub fn observe(&mut self, load: u32, response_time: u64)
        requires
            old(self)@.well_formed(),
        ensures
            final(self)@ == observed(old(self)@, load, response_time),
            final(self)@.well_formed(),
    {
        let fresh: u64 = if response_time <= MAX_RESPONSE_TIME {
            response_time
        } else {
            MAX_RESPONSE_TIME
        };
        let first: bool = self.avg_response_time == 0;
        self.current_load = if load <= SCALE {
            load
        } else {
            SCALE
        };
        if first || fresh < self.stats.min_response_time {
            self.stats.min_response_time = fresh;
        }
        if fresh > self.stats.max_response_time {
            self.stats.max_response_time = fresh;
        }
        if first {
            self.avg_response_time = fresh;
        } else {
            self.avg_response_time = (self.avg_response_time * 7 + fresh) / 8;
        }
    }

    /// Counts one more request handed to the server.
    pub fn dispatch(&mut self)
        ensures
            final(self)@ == dispatched(old(self)@),
            old(self)@.well_formed() ==> final(self)@.well_formed(),
    {
        if self.stats.active_requests < u64::MAX {
            self.stats.active_requests = self.stats.active_requests + 1;
        }
    }

    /// Counts one request as finished.
    pub fn release(&mut self)
        ensures
            final(self)@ == released(old(self)@),
            old(self)@.well_formed() ==> final(self)@.well_formed(),
    {
        if self.stats.active_requests > 0 {
            self.stats.active_requests = self.stats.active_requests - 1;
        }
    }
}

/// One timestamped observation of server loads.
#[derive(Clone, Debug)]
pub struct LoadSample {
    /// Seconds since the epoch.
    pub timestamp: i64,
    /// Load by server, each a fraction in millionths.
    pub loads: Vec<(ServerId, u32)>,
}

/// A load sample as a mathematical value.
pub struct SampleModel {
    pub timestamp: i64,
    pub loads: Seq<(ServerId, u32)>,
}

impl View for LoadSample {
    type V = SampleModel;

    open spec fn view(&self) -> SampleModel {
        SampleModel { timestamp: self.timestamp, loads: self.loads@ }
    }
}

/// The samples of `history`, each as a mathematical value.
pub open spec fn sample_views(history: Seq<LoadSample>) -> Seq<SampleModel> {
    Seq::new(history.len(), |i: int| history[i]@)
}

/// What the balancer is told of a request.
#[derive(Clone, Copy, Debug, PartialEq, Eq, Structural)]
pub struct RequestFeatures {
    /// The load the request is expected to add to the server that takes
    /// it, a fraction in millionths.
    pub expected_load: u32,
}

/// Why a selection fails.
#[derive(Clone, Copy, Debug, PartialEq, Eq, Structural)]
pub enum LoadBalancerError {
    /// No server is eligible.
    NoServersAvailable,
    /// Some eligible server has too little load history to predict from.
    PredictionUnavailable,
}

/// What the predictive strategy works with.
#[derive(Clone, Debug)]
pub struct PredictiveModel {
    /// The weights used where prediction is unavailable and selection falls
    /// back to weighted round robin.
    pub fallback_weights: Vec<(ServerId, u32)>,
}

/// The balancing strategy with its parameters.
#[derive(Clone, Debug)]
pub enum BalancingPolicy {
    /// Highest `weight * (1 - load) * availability` wins; a server without
    /// a weight has weight 1.
    WeightedRoundRobin { weights: Vec<(ServerId, u32)> },
    /// Fewest active requests wins, among servers below `max_connections`.
    WeightedLeastConnections { max_connections: u32 },
    /// Highest weighted sum of free CPU, free memory and inverse response
    /// time wins.
    ResourceBased { cpu_weight: u32, memory_weight: u32, response_time_weight: u32 },
    /// Highest availability times predicted free capacity wins.
    Predictive { model: PredictiveModel },
}

/// The configuration a balancer is built from.
#[derive(Clone, Debug)]
pub struct LoadBalancerConfig {
    pub policy: BalancingPolicy,
}

/// The weight that `weights` gives to `id`: that of the first pair with
/// this id, or 1 where there is none.
pub open spec fn weight_of(weights: Seq<(ServerId, u32)>, id: ServerId) -> u32
    decreases weights.len(),
{
    if weights.len() == 0 {
        1
    } else if weights[0].0 == id {
        weights[0].1
    } else {
        weight_of(weights.drop_first(), id)
    }
}

/// Looks up the weight of a server.
pub fn find_weight(weights: &Vec<(ServerId, u32)>, id: ServerId) -> (w: u32)
    ensures
        w == weight_of(weights@, id),
{
    let mut i: usize = 0;
    assert(weights@.skip(0) =~= weights@);
    while i < weights.len()
        invariant
            0 <= i <= weights@.len(),
            weight_of(weights@, id) == weight_of(weights@.skip(i as int), id),
        decreases weights@.len() - i,
    {
        if weights[i].0 == id {
            assert(weights@.skip(i as int)[0] == weights@[i as int]);
            return weights[i].1;
        }
        assert(weights@.skip(i as int).drop_first() =~= weights@.skip(i + 1));
        assert(weights@.skip(i as int)[0] == weights@[i as int]);
        i += 1;
    }
    assert(weights@.skip(weights@.len() as int).len() == 0);
    1
}

} // verus!
