//! The per-frame driver logic, with the rendering layer cut away: one
//! tick advances the ensemble and the running average and marks the
//! tracker, and one refresh settles whether the mesh of the focused
//! walker is rebuilt in full, patched incrementally, or left alone.
//!
//! The rendering layer supplies plain per-frame parameters — step count,
//! viewport mapping, colors, speed, hint, step limit — and owns the mesh
//! between frames; everything decided here is decided on those values
//! alone.

use vstd::prelude::*;

use crate::average::{dists_of, extended_series, lemma_chunked_extension, AverageDistance};
use crate::ensemble::{
    advance_model, advance_walkers, lemma_advance_model_add, lemma_advance_model_extends,
    lemma_advance_model_len, StepPolicy,
};
use crate::mesh::{calc_mesh, covers_prefix, full_mesh, update_mesh, CellRect, Rgb, Viewport};
use crate::tracker::{spec_needs_redraw, MeshChangeTracker, PerformanceHint};
use crate::walker::{RandomWalker, WalkerModel, DRAW_HALF, MAX_HISTORY_LEN};

verus! {

/// The distance records of an ensemble of walker states after `n` more
/// steps each.
pub open spec fn advanced_dists(
    ms: Seq<WalkerModel>,
    policy: StepPolicy,
    bias_fp: u64,
    n: nat,
) -> Seq<Seq<u64>> {
    ms.map_values(|m: WalkerModel| advance_model(m, policy, bias_fp, n).dists)
}

/// Chunking law at the tick level: extending the average series after
/// `n1` steps and again after `n2` further steps yields the same series
/// as one extension after `n1 + n2` steps — chunked ticks and one large
/// tick agree.
pub proof fn lemma_ticks_chunking(
    series: Seq<u64>,
    ms: Seq<WalkerModel>,
    policy: StepPolicy,
    bias_fp: u64,
    n1: nat,
    n2: nat,
)
    requires
        ms.len() > 0,
        forall|i: int| 0 <= i < ms.len() ==> (#[trigger] ms[i]).dists.len() == series.len(),
    ensures
        extended_series(
            extended_series(series, advanced_dists(ms, policy, bias_fp, n1), n1),
            advanced_dists(ms, policy, bias_fp, n1 + n2),
            n2,
        ) == extended_series(series, advanced_dists(ms, policy, bias_fp, n1 + n2), n1 + n2),
{
    let mid = advanced_dists(ms, policy, bias_fp, n1);
    let fin = advanced_dists(ms, policy, bias_fp, n1 + n2);
    assert forall|i: int| 0 <= i < mid.len() implies (#[trigger] mid[i]).len() == series.len()
        + n1 && fin[i].len() >= mid[i].len() && fin[i].take(mid[i].len() as int) == mid[i] by {
        lemma_advance_model_len(ms[i], policy, bias_fp, n1);
        lemma_advance_model_len(ms[i], policy, bias_fp, n1 + n2);
        lemma_advance_model_add(ms[i], policy, bias_fp, n1, n2);
        lemma_advance_model_extends(
            advance_model(ms[i], policy, bias_fp, n1),
            policy,
            bias_fp,
            n2,
        );
        assert(fin[i].take(mid[i].len() as int) =~= mid[i]);
    }
    lemma_chunked_extension(series, mid, fin, n1, n2);
}

/// One simulation tick: if any steps are due and the walkers are still
/// below the step limit, every walker advances by `do_steps` steps, the
/// average series grows by one mean per new step, and under the optics
/// hint a redraw is requested. At or past the limit the tick is a pause:
/// nothing moves.
pub fn run_tick(
    walkers: &mut Vec<RandomWalker>,
    average: &mut AverageDistance,
    tracker: &mut MeshChangeTracker,
    do_steps: usize,
    policy: StepPolicy,
    bias_fp: u64,
    step_limit: usize,
    hint: PerformanceHint,
)
    requires
        old(walkers)@.len() > 0,
        forall|i: int| 0 <= i < old(walkers)@.len() ==> (#[trigger] old(walkers)@[i]).wf(),
        forall|i: int|
            0 <= i < old(walkers)@.len() ==> (#[trigger] old(walkers)@[i]).history.vec@.len()
                == old(walkers)@[0].history.vec@.len(),
        old(walkers)@[0].history.vec@.len() + do_steps <= MAX_HISTORY_LEN,
        bias_fp <= DRAW_HALF,
        old(average).average_distance_plot_data@.len() == old(
            walkers,
        )@[0].history.vec@.len(),
    ensures
        final(walkers)@.len() == old(walkers)@.len(),
        ({
            let l0 = old(walkers)@[0].history.vec@.len();
            if do_steps > 0 && l0 < step_limit {
                &&& forall|i: int|
                    0 <= i < old(walkers)@.len() ==> (#[trigger] final(walkers)@[i])@
                        == advance_model(old(walkers)@[i]@, policy, bias_fp, do_steps as nat)
                &&& final(average).average_distance_plot_data@ == extended_series(
                    old(average).average_distance_plot_data@,
                    dists_of(final(walkers)@),
                    do_steps as nat,
                )
                &&& final(tracker).changed == (old(tracker).changed || hint
                    == PerformanceHint::PrioritizeOptics)
                &&& final(tracker).old_steps == old(tracker).old_steps
                &&& final(tracker).accumulated_change == old(tracker).accumulated_change
            } else {
                &&& final(walkers)@ == old(walkers)@
                &&& *final(average) == *old(average)
                &&& *final(tracker) == *old(tracker)
            }
        }),
        forall|i: int| 0 <= i < final(walkers)@.len() ==> (#[trigger] final(walkers)@[i]).wf(),
{
    if do_steps == 0 {
        return ;
    }
    let l0 = walkers[0].history.len();
    if l0 >= step_limit {
        proof {
            assert(walkers@ =~= old(walkers)@);
        }
        return ;
    }
    advance_walkers(walkers, do_steps, policy, bias_fp, step_limit);
    proof {
        lemma_advance_model_len(
            old(walkers)@[0]@,
            policy,
            bias_fp,
            do_steps as nat,
        );
        assert forall|i: int|
            0 <= i < walkers@.len() implies (#[trigger] walkers@[i]).history.vec@.len() == l0
            + do_steps by {
            lemma_advance_model_len(
                old(walkers)@[i]@,
                policy,
                bias_fp,
                do_steps as nat,
            );
        }
    }
    average.update_on_step_of_walkers(do_steps, walkers.as_slice());
    if hint == PerformanceHint::PrioritizeOptics {
        tracker.request_redraw();
    }
}

/// Settles the mesh for the frame: a full rebuild whenever the tracker
/// asks for one or no mesh exists yet, an incremental patch when steps
/// were taken since the last rebuild, and nothing otherwise. Either
/// active path leaves the mesh equal to a full rebuild of the walker's
/// present state; reaching the step limit schedules one final full
/// rebuild.
pub fn refresh_mesh(
    old_mesh: &mut Option<Vec<CellRect>>,
    tracker: &mut MeshChangeTracker,
    walker: &RandomWalker,
    view: &Viewport,
    color1: Rgb,
    color1_gradient: Rgb,
    color2: Rgb,
    speed_milli: u64,
    hint: PerformanceHint,
    step_limit: usize,
)
    requires
        view.wf(),
        ({
            let hist = walker.history.vec@;
            let needs = spec_needs_redraw(*old(tracker), speed_milli, hint) || (*old(
                old_mesh,
            )) is None;
            (!needs && old(tracker).old_steps != hist.len()) ==> {
                &&& old(tracker).old_steps < hist.len()
                &&& (*old(old_mesh)) matches Some(m) && covers_prefix(
                    m@,
                    hist,
                    old(tracker).old_steps as int,
                    *view,
                )
                &&& old(tracker).accumulated_change + (hist.len() - old(tracker).old_steps)
                    <= usize::MAX
            }
        }),
    ensures
        ({
            let hist = walker.history.vec@;
            let built = full_mesh(hist, walker.ort, *view, color1, color1_gradient, color2);
            let needs = spec_needs_redraw(*old(tracker), speed_milli, hint) || (*old(
                old_mesh,
            )) is None;
            if needs {
                &&& (*final(old_mesh)) matches Some(m) && m@ == built
                &&& *final(tracker) == (MeshChangeTracker {
                    changed: false,
                    old_steps: hist.len() as usize,
                    accumulated_change: 0,
                })
            } else if old(tracker).old_steps != hist.len() {
                &&& (*final(old_mesh)) matches Some(m) && m@ == built
                &&& final(tracker).changed == (hist.len() >= step_limit)
                &&& final(tracker).old_steps == hist.len()
                &&& final(tracker).accumulated_change == old(tracker).accumulated_change + (
                hist.len() - old(tracker).old_steps)
            } else {
                &&& *final(old_mesh) == *old(old_mesh)
                &&& *final(tracker) == *old(tracker)
            }
        }),
{
    let needs = tracker.check_if_needs_redraw(speed_milli, hint);
    if needs || old_mesh.is_none() {
        let mesh = calc_mesh(walker, view, color1, color1_gradient, color2);
        let total_steps = walker.history.len();
        tracker.redraw_finished(total_steps);
        *old_mesh = Some(mesh);
    } else {
        match old_mesh {
            Some(saved) => {
                let old_steps = tracker.get_current_step();
                let new_steps = walker.history.len();
                if old_steps != new_steps {
                    update_mesh(saved, old_steps, walker, view, color1, color1_gradient, color2);
                    tracker.new_steps(new_steps);
                    if new_steps >= step_limit {
                        tracker.request_redraw();
                    }
                }
            },
            None => {},
        }
    }
}

} // verus!
