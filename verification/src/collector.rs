//! The metrics collector: raw observations by server, and the performance
//! reports made from them.

use vstd::prelude::*;
use dashmap::DashMap;
use crate::balancer::server::ServerId;
use crate::sampler::{
    is_degraded, measure_performance, needs_alert, performance_of, MetricsError, Observation,
    PerformanceMetrics,
};

verus! {

/// The observations of one watched server since the last collection.
pub struct ServerObservations {
    pub server: ServerId,
    pub observations: Vec<Observation>,
}

/// The observations of one server as a mathematical value.
pub struct ObservationsModel {
    pub server: ServerId,
    pub observations: Seq<Observation>,
}

impl View for ServerObservations {
    type V = ObservationsModel;

    open spec fn view(&self) -> ObservationsModel {
        ObservationsModel { server: self.server, observations: self.observations@ }
    }
}

/// The performance of one server at a collection, and whether it calls for
/// an alert.
#[derive(Clone, Copy, Debug, PartialEq, Eq, Structural)]
pub struct PerformanceReport {
    pub server: ServerId,
    pub metrics: PerformanceMetrics,
    pub alert: bool,
}

/// What the table of performance holds: for each server the latest report
/// on it.
pub uninterp spec fn performance_contents(m: DashMap<ServerId, PerformanceReport>) -> Map<
    ServerId,
    PerformanceReport,
>;

/// The contents of a table without reports.
pub open spec fn no_reports() -> Map<ServerId, PerformanceReport> {
    Map::empty()
}

/// `DashMap::new`: a map that holds nothing.
#[verifier::external_body]
pub(crate) fn performance_new() -> (m: DashMap<ServerId, PerformanceReport>)
    ensures
        performance_contents(m) == no_reports(),
{
    DashMap::new()
}

/// `DashMap::insert`: afterwards the map holds `report` under `server` and
/// is otherwise unchanged; the report that was under `server` before is
/// returned.
#[verifier::external_body]
pub(crate) fn performance_insert(
    m: &mut DashMap<ServerId, PerformanceReport>,
    server: ServerId,
    report: PerformanceReport,
) -> (prior: Option<PerformanceReport>)
    ensures
        performance_contents(*final(m)) == performance_contents(*old(m)).insert(server, report),
        match prior {
            Some(p) => performance_contents(*old(m)).contains_key(server) && p == performance_contents(*old(m))[server],
            None => !performance_contents(*old(m)).contains_key(server),
        },
{
    m.insert(server, report)
}

/// `DashMap::get`: a copy of the report under `server`, if the map holds
/// one.
#[verifier::external_body]
pub(crate) fn performance_get(m: &DashMap<ServerId, PerformanceReport>, server: ServerId) -> (found: Option<
    PerformanceReport,
>)
    ensures
        match found {
            Some(r) => performance_contents(*m).contains_key(server) && r == performance_contents(*m)[server],
            None => !performance_contents(*m).contains_key(server),
        },
{
    m.get(&server).map(|r| *r.value())
}

/// The table after the reports were entered one after the other, each
/// under its server.
pub open spec fn with_reports(
    table: Map<ServerId, PerformanceReport>,
    reports: Seq<PerformanceReport>,
) -> Map<ServerId, PerformanceReport>
    decreases reports.len(),
{
    if reports.len() == 0 {
        table
    } else {
        with_reports(table, reports.drop_last()).insert(reports.last().server, reports.last())
    }
}

/// The collector as a mathematical state.
pub struct CollectorState {
    /// Watched servers with what was observed of each since the last
    /// collection, in the order in which they came under watch.
    pub pending: Seq<ObservationsModel>,
    /// The reports of the last collection, in the same order.
    pub reports: Seq<PerformanceReport>,
    /// The latest report on each server that was ever reported on.
    pub performance: Map<ServerId, PerformanceReport>,
}

/// The pending observations, each as a mathematical value.
pub open spec fn pending_views(pending: Seq<ServerObservations>) -> Seq<ObservationsModel> {
    Seq::new(pending.len(), |i: int| pending[i]@)
}

/// The position of `server` among the watched servers, or the number of
/// watched servers where it is not among them.
pub open spec fn watch_position(pending: Seq<ObservationsModel>, server: ServerId) -> int
    decreases pending.len(),
{
    if pending.len() == 0 {
        0
    } else if pending[0].server == server {
        0
    } else {
        1 + watch_position(pending.drop_first(), server)
    }
}

/// The pending observations after `observation` of `server` was recorded:
/// it joins the server's observations, and a server not yet watched comes
/// under watch with it.
pub open spec fn with_observation(
    pending: Seq<ObservationsModel>,
    server: ServerId,
    observation: Observation,
) -> Seq<ObservationsModel> {
    let at = watch_position(pending, server);
    if at < pending.len() {
        pending.update(
            at,
            ObservationsModel { server, observations: pending[at].observations.push(observation) },
        )
    } else {
        pending.push(ObservationsModel { server, observations: seq![observation] })
    }
}

/// The pending observations after `server` came under watch: unchanged
/// where it was watched already.
pub open spec fn with_watch(pending: Seq<ObservationsModel>, server: ServerId) -> Seq<
    ObservationsModel,
> {
    if watch_position(pending, server) < pending.len() {
        pending
    } else {
        pending.push(ObservationsModel { server, observations: Seq::empty() })
    }
}

/// Every watched server has at least one pending observation.
pub open spec fn all_observed(pending: Seq<ObservationsModel>) -> bool {
    forall|i: int| 0 <= i < pending.len() ==> (#[trigger] pending[i]).observations.len() > 0
}

/// The report made of one server's observations.
pub open spec fn report_of(p: ObservationsModel, window_seconds: u64) -> PerformanceReport {
    let metrics = performance_of(p.observations, window_seconds);
    PerformanceReport { server: p.server, metrics, alert: is_degraded(metrics) }
}

/// The reports that a collection makes: one of each watched server, in the
/// order of the watch.
pub open spec fn reports_of(pending: Seq<ObservationsModel>, window_seconds: u64) -> Seq<
    PerformanceReport,
> {
    Seq::new(pending.len(), |i: int| report_of(pending[i], window_seconds))
}

/// The collector after a successful collection: one report per watched
/// server, each entered in the table under its server, and no observation
/// pending.
pub open spec fn collected(s: CollectorState, window_seconds: u64) -> CollectorState {
    CollectorState {
        pending: Seq::new(
            s.pending.len(),
            |i: int| ObservationsModel { server: s.pending[i].server, observations: Seq::empty() },
        ),
        reports: reports_of(s.pending, window_seconds),
        performance: with_reports(s.performance, reports_of(s.pending, window_seconds)),
    }
}

proof fn lemma_watch_position_range(pending: Seq<ObservationsModel>, server: ServerId)
    ensures
        0 <= watch_position(pending, server) <= pending.len(),
        watch_position(pending, server) < pending.len() ==> pending[watch_position(
            pending,
            server,
        )].server == server,
    decreases pending.len(),
{
    if pending.len() > 0 && pending[0].server != server {
        lemma_watch_position_range(pending.drop_first(), server);
    }
}

proof fn lemma_watch_position_found(pending: Seq<ObservationsModel>, server: ServerId, at: int)
    requires
        0 <= at <= pending.len(),
        forall|i: int| 0 <= i < at ==> (#[trigger] pending[i]).server != server,
        at < pending.len() ==> pending[at].server == server,
    ensures
        watch_position(pending, server) == at,
    decreases pending.len(),
{
    if pending.len() > 0 && at > 0 {
        let rest = pending.drop_first();
        assert(pending[0].server != server);
        assert forall|i: int| 0 <= i < at - 1 implies (#[trigger] rest[i]).server != server by {
            assert(rest[i] == pending[i + 1]);
        }
        lemma_watch_position_found(rest, server, at - 1);
    }
}

/// The extended metrics collector.
pub struct EnhancedMetricsCollector {
    pending: Vec<ServerObservations>,
    reports: Vec<PerformanceReport>,
    performance: DashMap<ServerId, PerformanceReport>,
}

impl View for EnhancedMetricsCollector {
    type V = CollectorState;

    closed spec fn view(&self) -> CollectorState {
        CollectorState {
            pending: pending_views(self.pending@),
            reports: self.reports@,
            performance: performance_contents(self.performance),
        }
    }
}

impl EnhancedMetricsCollector {
    /// A collector that watches no server.
    pub fn new() -> (c: Self)
        ensures
            c@.pending == Seq::<ObservationsModel>::empty(),
            c@.reports == Seq::<PerformanceReport>::empty(),
            c@.performance == no_reports(),
    {
        let c = EnhancedMetricsCollector {
            pending: Vec::new(),
            reports: Vec::new(),
            performance: performance_new(),
        };
        assert(c@.pending =~= Seq::<ObservationsModel>::empty());
        c
    }

    fn find(&self, server: ServerId) -> (at: usize)
        ensures
            at == watch_position(self@.pending, server),
            at <= self.pending@.len(),
    {
        let mut at: usize = 0;
        while at < self.pending.len() && self.pending[at].server != server
            invariant
                0 <= at <= self.pending@.len(),
                forall|i: int| 0 <= i < at ==> (#[trigger] self@.pending[i]).server != server,
            decreases self.pending@.len() - at,
        {
            at += 1;
        }
        proof {
            lemma_watch_position_found(self@.pending, server, at as int);
        }
        at
    }

    /// Puts `server` under watch.
    pub fn watch(&mut self, server: ServerId)
        ensures
            final(self)@ == (CollectorState {
                pending: with_watch(old(self)@.pending, server),
                ..old(self)@
            }),
    {
        let at: usize = self.find(server);
        if at >= self.pending.len() {
            self.pending.push(ServerObservations { server, observations: Vec::new() });
            assert(self@.pending =~= with_watch(old(self)@.pending, server));
        }
    }

    /// Records one observation of `server`.
    pub fn record(&mut self, server: ServerId, observation: Observation)
        ensures
            final(self)@ == (CollectorState {
                pending: with_observation(old(self)@.pending, server, observation),
                ..old(self)@
            }),
    {
        let at: usize = self.find(server);
        proof {
            lemma_watch_position_range(self@.pending, server);
        }
        if at < self.pending.len() {
            let ghost before = self.pending@;
            assert(pending_views(before)[at as int] == before[at as int]@);
            self.pending[at].observations.push(observation);
            assert(self.pending@.len() == before.len());
            assert(self.pending@[at as int].server == before[at as int].server);
            assert forall|i: int| 0 <= i < before.len() && i != at implies self.pending@[i]
                == before[i] by {}
            assert(self@.pending =~= with_observation(old(self)@.pending, server, observation));
        } else {
            let mut observations: Vec<Observation> = Vec::new();
            observations.push(observation);
            assert(observations@ =~= seq![observation]);
            self.pending.push(ServerObservations { server, observations });
            assert(self@.pending =~= with_observation(old(self)@.pending, server, observation));
        }
    }

    /// Makes a performance report of every watched server from what was
    /// observed of it within `window_seconds`, and starts a new round of
    /// observations. Fails, changing nothing, where some watched server has
    /// no observation.
    pub fn collect_metrics(&mut self, window_seconds: u64) -> (r: Result<(), MetricsError>)
        ensures
            all_observed(old(self)@.pending) ==> r is Ok && final(self)@ == collected(
                old(self)@,
                window_seconds,
            ),
            !all_observed(old(self)@.pending) ==> r == Err::<(), MetricsError>(
                MetricsError::NoDataAvailable,
            ) && final(self)@ == old(self)@,
    {
        let ghost before = self@;
        let total: usize = self.pending.len();
        let mut reports: Vec<PerformanceReport> = Vec::new();
        let mut i: usize = 0;
        while i < total
            invariant
                0 <= i <= total,
                total == self.pending@.len(),
                self@ == before,
                reports@.len() == i,
                forall|t: int| 0 <= t < i ==> (#[trigger] before.pending[t]).observations.len() > 0,
                forall|t: int| 0 <= t < i ==> #[trigger] reports@[t] == report_of(
                    before.pending[t],
                    window_seconds,
                ),
            decreases total - i,
        {
            assert(before.pending[i as int] == self.pending@[i as int]@);
            match measure_performance(self.pending[i].observations.as_slice(), window_seconds) {
                Ok(metrics) => {
                    let alert: bool = needs_alert(&metrics);
                    reports.push(PerformanceReport { server: self.pending[i].server, metrics, alert });
                },
                Err(_) => {
                    return Err(MetricsError::NoDataAvailable);
                },
            }
            i += 1;
        }
        let mut cleared: Vec<ServerObservations> = Vec::new();
        let mut j: usize = 0;
        while j < total
            invariant
                0 <= j <= total,
                total == self.pending@.len(),
                self@ == before,
                cleared@.len() == j,
                forall|t: int| 0 <= t < j ==> (#[trigger] cleared@[t])@ == (ObservationsModel {
                    server: before.pending[t].server,
                    observations: Seq::empty(),
                }),
            decreases total - j,
        {
            assert(before.pending[j as int] == self.pending@[j as int]@);
            cleared.push(ServerObservations { server: self.pending[j].server, observations: Vec::new() });
            j += 1;
        }
        assert(reports@ =~= reports_of(before.pending, window_seconds));
        let mut k: usize = 0;
        assert(reports@.take(0) =~= Seq::<PerformanceReport>::empty());
        while k < reports.len()
            invariant
                0 <= k <= reports@.len(),
                performance_contents(self.performance) == with_reports(
                    before.performance,
                    reports@.take(k as int),
                ),
            decreases reports@.len() - k,
        {
            assert(reports@.take(k + 1).drop_last() =~= reports@.take(k as int));
            assert(reports@.take(k + 1).last() == reports@[k as int]);
            let _ = performance_insert(&mut self.performance, reports[k].server, reports[k]);
            k += 1;
        }
        assert(reports@.take(reports@.len() as int) =~= reports@);
        self.pending = cleared;
        self.reports = reports;
        assert(self@.pending =~= collected(before, window_seconds).pending);
        Ok(())
    }

    /// The latest report on `server`, if it was ever reported on.
    pub fn performance(&self, server: ServerId) -> (r: Option<PerformanceReport>)
        ensures
            match r {
                Some(report) => self@.performance.contains_key(server) && report
                    == self@.performance[server],
                None => !self@.performance.contains_key(server),
            },
    {
        performance_get(&self.performance, server)
    }

    /// The number of servers whose last report calls for an alert.
    pub fn alert_count(&self) -> (n: usize)
        ensures
            n == alerts_in(self@.reports),
    {
        let mut n: usize = 0;
        let mut i: usize = 0;
        assert(self.reports@.take(0) =~= Seq::<PerformanceReport>::empty());
        while i < self.reports.len()
            invariant
                0 <= i <= self.reports@.len(),
                n == alerts_in(self.reports@.take(i as int)),
                n <= i,
            decreases self.reports@.len() - i,
        {
            assert(self.reports@.take(i + 1).drop_last() =~= self.reports@.take(i as int));
            assert(self.reports@.take(i + 1).last() == self.reports@[i as int]);
            if self.reports[i].alert {
                n += 1;
            }
            i += 1;
        }
        assert(self.reports@.take(self.reports@.len() as int) =~= self.reports@);
        n
    }
}

/// The number of reports that call for an alert.
pub open spec fn alerts_in(reports: Seq<PerformanceReport>) -> int
    decreases reports.len(),
{
    if reports.len() == 0 {
        0
    } else {
        alerts_in(reports.drop_last()) + if reports.last().alert {
            1int
        } else {
            0int
        }
    }
}

} // verus!
