//! Load history and the short-horizon load predictor.
//!
//! The predictor extends the trend of a server's last two observed loads by
//! one step.

use vstd::prelude::*;
use crate::balancer::server::{
    at_most, sample_views, LoadBalancerError, LoadSample, SampleModel, ServerId,
    RETENTION_SECONDS, SCALE,
};

verus! {

/// The load that a sample records for `id`: that of the first pair with
/// this id.
pub open spec fn load_in(loads: Seq<(ServerId, u32)>, id: ServerId) -> Option<u32>
    decreases loads.len(),
{
    if loads.len() == 0 {
        None
    } else if loads[0].0 == id {
        Some(loads[0].1)
    } else {
        load_in(loads.drop_first(), id)
    }
}

/// The loads observed of `id`, oldest first.
pub open spec fn observations(history: Seq<SampleModel>, id: ServerId) -> Seq<u32>
    decreases history.len(),
{
    if history.len() == 0 {
        Seq::empty()
    } else {
        let earlier = observations(history.drop_last(), id);
        match load_in(history.last().loads, id) {
            Some(load) => earlier.push(load),
            None => earlier,
        }
    }
}

/// The trend of two observations extended by one step, kept within
/// `0..=SCALE`.
pub open spec fn extrapolated(previous: u32, latest: u32) -> u32 {
    let next = 2 * latest - previous;
    if next < 0 {
        0
    } else {
        at_most(next, SCALE as int) as u32
    }
}

/// The load predicted for `id` in the next interval, or `None` where the
/// history holds fewer than two observations of it.
pub open spec fn predicted_load(history: Seq<SampleModel>, id: ServerId) -> Option<u32> {
    let seen = observations(history, id);
    if seen.len() < 2 {
        None
    } else {
        Some(extrapolated(seen[seen.len() - 2], seen[seen.len() - 1]))
    }
}

/// A sample is kept at time `now` while it is younger than the retention
/// window.
pub open spec fn retained(sample: SampleModel, now: i64) -> bool {
    now - sample.timestamp < RETENTION_SECONDS
}

/// The samples of `history` that are kept at time `now`, in their order.
pub open spec fn pruned(history: Seq<SampleModel>, now: i64) -> Seq<SampleModel>
    decreases history.len(),
{
    if history.len() == 0 {
        Seq::empty()
    } else {
        let earlier = pruned(history.drop_last(), now);
        if retained(history.last(), now) {
            earlier.push(history.last())
        } else {
            earlier
        }
    }
}

/// The history after a sample was appended at time `now` and what is older
/// than the retention window was dropped.
pub open spec fn history_after(history: Seq<SampleModel>, sample: SampleModel, now: i64) -> Seq<
    SampleModel,
> {
    pruned(history.push(sample), now)
}

/// What is kept of a history is within the retention window, and nothing
/// within the window is dropped.
pub proof fn lemma_pruned_are_retained(history: Seq<SampleModel>, now: i64)
    ensures
        forall|i: int|
            0 <= i < pruned(history, now).len() ==> retained(#[trigger] pruned(history, now)[i], now),
        forall|i: int|
            0 <= i < history.len() && retained(#[trigger] history[i], now) ==> pruned(
                history,
                now,
            ).contains(history[i]),
        pruned(history, now).len() <= history.len(),
    decreases history.len(),
{
    if history.len() > 0 {
        let earlier = history.drop_last();
        lemma_pruned_are_retained(earlier, now);
        let kept = pruned(history, now);
        let before = pruned(earlier, now);
        assert forall|i: int| 0 <= i < history.len() && retained(
            #[trigger] history[i],
            now,
        ) implies kept.contains(history[i]) by {
            if i < earlier.len() {
                assert(earlier[i] == history[i]);
                let at = choose|at: int| 0 <= at < before.len() && before[at] == earlier[i];
                assert(kept[at] == history[i]);
            } else {
                assert(kept[kept.len() - 1] == history[i]);
            }
        }
    }
}

fn find_load(loads: &Vec<(ServerId, u32)>, id: ServerId) -> (r: Option<u32>)
    ensures
        r == load_in(loads@, id),
{
    let mut i: usize = 0;
    assert(loads@.skip(0) =~= loads@);
    while i < loads.len()
        invariant
            0 <= i <= loads@.len(),
            load_in(loads@, id) == load_in(loads@.skip(i as int), id),
        decreases loads@.len() - i,
    {
        assert(loads@.skip(i as int)[0] == loads@[i as int]);
        if loads[i].0 == id {
            return Some(loads[i].1);
        }
        assert(loads@.skip(i as int).drop_first() =~= loads@.skip(i + 1));
        i += 1;
    }
    None
}

proof fn lemma_observations_split(history: Seq<SampleModel>, id: ServerId, i: int)
    requires
        0 <= i < history.len(),
    ensures
        observations(history.take(i + 1), id) == match load_in(history[i].loads, id) {
            Some(load) => observations(history.take(i), id).push(load),
            None => observations(history.take(i), id),
        },
{
    assert(history.take(i + 1).drop_last() =~= history.take(i));
    assert(history.take(i + 1).last() == history[i]);
}

/// The load predictor.
#[derive(Clone, Copy, Debug)]
pub struct LoadPredictor {}

impl LoadPredictor {
    /// A predictor.
    pub fn new() -> (p: Self) {
        LoadPredictor {  }
    }

    /// Predicts the load of `id` in the next interval from the history.
    /// Fails where the history holds fewer than two observations of it.
    pub fn predict(&self, history: &Vec<LoadSample>, id: ServerId) -> (r: Result<
        u32,
        LoadBalancerError,
    >)
        ensures
            match r {
                Ok(load) => predicted_load(sample_views(history@), id) == Some(load),
                Err(e) => e == LoadBalancerError::PredictionUnavailable && predicted_load(
                    sample_views(history@),
                    id,
                ) is None,
            },
    {
        let ghost all = sample_views(history@);
        let mut latest: Option<u32> = None;
        let mut i: usize = history.len();
        assert(all.take(all.len() as int) =~= all);
        while i > 0
            invariant
                0 <= i <= history@.len(),
                all == sample_views(history@),
                match latest {
                    None => observations(all, id) == observations(all.take(i as int), id),
                    Some(l) => observations(all, id) == observations(all.take(i as int), id).push(l),
                },
            decreases i,
        {
            i -= 1;
            let found: Option<u32> = find_load(&history[i].loads, id);
            proof {
                lemma_observations_split(all, id, i as int);
                assert(all[i as int] == history@[i as int]@);
            }
            match found {
                None => {},
                Some(load) => {
                    match latest {
                        None => {
                            latest = Some(load);
                        },
                        Some(l) => {
                            let next: i64 = 2 * (l as i64) - (load as i64);
                            let predicted: u32 = if next < 0 {
                                0
                            } else if next > SCALE as i64 {
                                SCALE
                            } else {
                                next as u32
                            };
                            return Ok(predicted);
                        },
                    }
                },
            }
        }
        assert(all.take(0).len() == 0);
        Err(LoadBalancerError::PredictionUnavailable)
    }
}

/// Appends `sample` to the history and drops what is older than the
/// retention window at time `now`.
pub fn record_in_history(history: &mut Vec<LoadSample>, sample: LoadSample, now: i64)
    ensures
        sample_views(final(history)@) == history_after(sample_views(old(history)@), sample@, now),
{
    let ghost before = sample_views(history@).push(sample@);
    history.push(sample);
    assert(sample_views(history@) =~= before);
    let mut kept: Vec<LoadSample> = Vec::new();
    let total: usize = history.len();
    let mut i: usize = 0;
    assert(before.take(0) =~= Seq::<SampleModel>::empty());
    while i < total
        invariant
            0 <= i <= total,
            total == history@.len(),
            before == sample_views(history@),
            sample_views(kept@) == pruned(before.take(i as int), now),
        decreases total - i,
    {
        let stamp: i64 = history[i].timestamp;
        let age: i128 = now as i128 - stamp as i128;
        proof {
            assert(before.take(i + 1).drop_last() =~= before.take(i as int));
            assert(before.take(i + 1).last() == before[i as int]);
            assert(before[i as int] == history@[i as int]@);
        }
        if age < RETENTION_SECONDS as i128 {
            let ghost prior = sample_views(kept@);
            let copy = LoadSample { timestamp: stamp, loads: copy_loads(&history[i].loads) };
            kept.push(copy);
            assert(sample_views(kept@) =~= prior.push(before[i as int]));
        }
        i += 1;
    }
    assert(before.take(total as int) =~= before);
    *history = kept;
}

/// Copies the loads of a sample.
pub fn copy_loads(loads: &Vec<(ServerId, u32)>) -> (r: Vec<(ServerId, u32)>)
    ensures
        r@ == loads@,
{
    let mut out: Vec<(ServerId, u32)> = Vec::new();
    let mut i: usize = 0;
    while i < loads.len()
        invariant
            0 <= i <= loads@.len(),
            out@ == loads@.take(i as int),
        decreases loads@.len() - i,
    {
        out.push(loads[i]);
        assert(loads@.take(i + 1) =~= loads@.take(i as int).push(loads@[i as int]));
        i += 1;
    }
    assert(loads@.take(loads@.len() as int) =~= loads@);
    out
}

} // verus!
