//! The running average of the walkers' distances from the origin: one mean
//! per time step, appended in order as the ensemble advances, with a
//! decimated view for cheap large-scale plotting.
//!
//! Means are kept in the same fixed point as the distances (16 fractional
//! bits) and rounded down. Because every mean is computed from the
//! distances at its own time index alone, and recorded distances never
//! change, the series does not depend on how the extension was chunked
//! into calls.

use vstd::prelude::*;

use crate::math::{isqrt_u128, sqrt_floor};
use crate::walker::{RandomWalker, MAX_HISTORY_LEN};

verus! {

/// How many samples the decimated view skips between two that it keeps.
pub const APPROXIMATION_STRIDE: usize = 100;

/// One half of the square root of pi, in fixed point with 16 fractional
/// bits, rounded down: the constant of the expected mean displacement of
/// an unbiased 2D lattice walk.
pub const SQRT_PI_HALF_FP: u64 = 58080;

/// How many points the analytical reference curve samples.
pub const CURVE_SAMPLES: usize = 1000;

/// The distance sequences of an ensemble, one per walker.
pub open spec fn dists_of(ws: Seq<RandomWalker>) -> Seq<Seq<u64>> {
    ws.map_values(|w: RandomWalker| w.history.distance_from_origin@)
}

/// The sum over all walkers of the distance recorded at time `idx`.
pub open spec fn sum_dists_at(ds: Seq<Seq<u64>>, idx: int) -> int
    decreases ds.len(),
{
    if ds.len() == 0 {
        0
    } else {
        sum_dists_at(ds.drop_last(), idx) + ds.last()[idx]
    }
}

/// The mean over all walkers of the distance recorded at time `idx`,
/// rounded down.
pub open spec fn mean_at(ds: Seq<Seq<u64>>, idx: int) -> int {
    sum_dists_at(ds, idx) / (ds.len() as int)
}

/// The series extended by `k` new means, one per time index following the
/// series' present end.
pub open spec fn extended_series(series: Seq<u64>, ds: Seq<Seq<u64>>, k: nat) -> Seq<u64> {
    series + Seq::new(k, |j: int| mean_at(ds, series.len() + j) as u64)
}

/// The running time series of mean distances from the origin, one
/// fixed-point sample per time step.
#[derive(Debug)]
pub struct AverageDistance {
    pub average_distance_plot_data: Vec<u64>,
}

impl Default for AverageDistance {
    /// An empty series.
    fn default() -> (r: Self)
        ensures
            r.average_distance_plot_data@ == Seq::<u64>::empty(),
    {
        AverageDistance { average_distance_plot_data: Vec::new() }
    }
}

impl AverageDistance {
    /// Appends the given samples to the series in order.
    pub fn push_averages(&mut self, averages: &[u64])
        ensures
            final(self).average_distance_plot_data@ == old(self).average_distance_plot_data@
                + averages@,
    {
        let mut i: usize = 0;
        while i < averages.len()
            invariant
                i <= averages@.len(),
                self.average_distance_plot_data@ == old(self).average_distance_plot_data@
                    + averages@.take(i as int),
            decreases averages@.len() - i,
        {
            self.average_distance_plot_data.push(averages[i]);
            proof {
                assert(averages@.take(i + 1) == averages@.take(i as int).push(averages@[i as int]));
            }
            i = i + 1;
        }
        proof {
            assert(averages@.take(averages@.len() as int) == averages@);
        }
    }

    /// Extends the series by one mean per newly taken step. Every walker
    /// must have advanced by exactly `number_of_steps` steps since the
    /// series was last extended, so that the series' end lines up with the
    /// first untracked time index of every history.
    pub fn update_on_step_of_walkers(&mut self, number_of_steps: usize, walkers: &[RandomWalker])
        requires
            walkers@.len() > 0,
            forall|i: int| 0 <= i < walkers@.len() ==> (#[trigger] walkers@[i]).wf(),
            forall|i: int|
                0 <= i < walkers@.len() ==> (#[trigger] walkers@[i]).history.vec@.len()
                    == walkers@[0].history.vec@.len(),
            number_of_steps <= walkers@[0].history.vec@.len(),
            old(self).average_distance_plot_data@.len() == walkers@[0].history.vec@.len()
                - number_of_steps,
        ensures
            final(self).average_distance_plot_data@ == extended_series(
                old(self).average_distance_plot_data@,
                dists_of(walkers@),
                number_of_steps as nat,
            ),
            final(self).average_distance_plot_data@.len() == walkers@[0].history.vec@.len(),
    {
        let ghost series0 = self.average_distance_plot_data@;
        let ghost ds = dists_of(walkers@);
        let idx_start = walkers[0].history.len() - number_of_steps;
        let num_of_walkers = walkers.len();
        let mut j: usize = 0;
        while j < number_of_steps
            invariant
                j <= number_of_steps,
                idx_start == series0.len(),
                idx_start + number_of_steps == walkers@[0].history.vec@.len(),
                idx_start + number_of_steps <= usize::MAX,
                num_of_walkers == walkers@.len() > 0,
                forall|i: int| 0 <= i < walkers@.len() ==> (#[trigger] walkers@[i]).wf(),
                forall|i: int|
                    0 <= i < walkers@.len() ==> (#[trigger] walkers@[i]).history.vec@.len()
                        == walkers@[0].history.vec@.len(),
                ds == dists_of(walkers@),
                self.average_distance_plot_data@ == extended_series(series0, ds, j as nat),
            decreases number_of_steps - j,
        {
            let idx = idx_start + j;
            let mut sum: u128 = 0;
            let mut w: usize = 0;
            while w < num_of_walkers
                invariant
                    w <= num_of_walkers,
                    num_of_walkers == walkers@.len(),
                    idx < walkers@[0].history.vec@.len(),
                    forall|i: int| 0 <= i < walkers@.len() ==> (#[trigger] walkers@[i]).wf(),
                    forall|i: int|
                        0 <= i < walkers@.len() ==> (#[trigger] walkers@[i]).history.vec@.len()
                            == walkers@[0].history.vec@.len(),
                    ds == dists_of(walkers@),
                    sum == sum_dists_at(ds.take(w as int), idx as int),
                    sum <= w * 0xFFFF_FFFF_FFFF_FFFF,
                decreases num_of_walkers - w,
            {
                let d: u64 = walkers[w].history.distance_from_origin[idx];
                proof {
                    assert(ds.take(w + 1).drop_last() == ds.take(w as int));
                    assert(ds.take(w + 1).last() == ds[w as int]);
                    assert(ds[w as int] == walkers@[w as int].history.distance_from_origin@);
                }
                sum = sum + (d as u128);
                w = w + 1;
            }
            proof {
                assert(ds.take(num_of_walkers as int) == ds);
                lemma_mean_fits(sum as int, num_of_walkers as int);
            }
            let mean: u64 = (sum / (num_of_walkers as u128)) as u64;
            self.average_distance_plot_data.push(mean);
            proof {
                assert(extended_series(series0, ds, (j + 1) as nat) == extended_series(
                    series0,
                    ds,
                    j as nat,
                ).push(mean_at(ds, series0.len() + j) as u64)) by {
                    assert(extended_series(series0, ds, (j + 1) as nat) =~= extended_series(
                        series0,
                        ds,
                        j as nat,
                    ).push(mean_at(ds, series0.len() + j) as u64));
                }
            }
            j = j + 1;
        }
    }

    /// A copy of the whole series.
    pub fn cloned_average(&self) -> (r: Vec<u64>)
        ensures
            r@ == self.average_distance_plot_data@,
    {
        let mut r: Vec<u64> = Vec::with_capacity(self.average_distance_plot_data.len());
        let mut i: usize = 0;
        while i < self.average_distance_plot_data.len()
            invariant
                i <= self.average_distance_plot_data@.len(),
                r@ == self.average_distance_plot_data@.take(i as int),
            decreases self.average_distance_plot_data@.len() - i,
        {
            r.push(self.average_distance_plot_data[i]);
            proof {
                assert(self.average_distance_plot_data@.take(i + 1)
                    == self.average_distance_plot_data@.take(i as int).push(
                    self.average_distance_plot_data@[i as int],
                ));
            }
            i = i + 1;
        }
        proof {
            assert(self.average_distance_plot_data@.take(
                self.average_distance_plot_data@.len() as int,
            ) == self.average_distance_plot_data@);
        }
        r
    }

    /// The decimated view: every hundredth sample, starting at index 0.
    pub fn get_approximation(&self) -> (r: Vec<u64>)
        ensures
            r@.len() == (self.average_distance_plot_data@.len() + APPROXIMATION_STRIDE - 1)
                / (APPROXIMATION_STRIDE as int),
            forall|i: int|
                0 <= i < r@.len() ==> r@[i] == self.average_distance_plot_data@[i * (
                APPROXIMATION_STRIDE as int)],
    {
        let len = self.average_distance_plot_data.len();
        let mut r: Vec<u64> = Vec::new();
        if len == 0 {
            return r;
        }
        let mut i: usize = 0;
        loop
            invariant_except_break
                i % APPROXIMATION_STRIDE == 0,
                i < len,
                len == self.average_distance_plot_data@.len(),
                r@.len() * (APPROXIMATION_STRIDE as int) == i,
                forall|k: int|
                    0 <= k < r@.len() ==> r@[k] == self.average_distance_plot_data@[k * (
                    APPROXIMATION_STRIDE as int)],
            ensures
                len == self.average_distance_plot_data@.len(),
                i % APPROXIMATION_STRIDE == 0,
                i < len <= i + APPROXIMATION_STRIDE,
                (r@.len() - 1) * (APPROXIMATION_STRIDE as int) == i,
                forall|k: int|
                    0 <= k < r@.len() ==> r@[k] == self.average_distance_plot_data@[k * (
                    APPROXIMATION_STRIDE as int)],
            decreases len - i,
        {
            r.push(self.average_distance_plot_data[i]);
            if len - i <= APPROXIMATION_STRIDE {
                break ;
            }
            i = i + APPROXIMATION_STRIDE;
        }
        proof {
            let s = APPROXIMATION_STRIDE as int;
            let li = i as int;
            let ll = len as int;
            let rl = r@.len() as int;
            assert((ll + s - 1) / s == li / s + 1 && rl == li / s + 1) by (nonlinear_arith)
                requires
                    s == 100,
                    li % s == 0,
                    li >= 0,
                    li < ll <= li + s,
                    (rl - 1) * s == li,
            ;
        }
        r
    }
}

/// The `i`-th sample abscissa of the analytical curve across the step
/// range `[0, max_steps)`, in fixed point: `i * max_steps / 1000`.
pub open spec fn analytical_x(max_steps: int, i: int) -> int {
    i * max_steps * 0x1_0000 / 1000
}

/// The analytical expected mean displacement of an unbiased 2D lattice
/// walk after `x` steps, in fixed point: `sqrt(x) * sqrt(pi) / 2`,
/// rounded down at each stage.
pub open spec fn analytical_y(x_fp: int) -> int {
    sqrt_floor(x_fp * 0x1_0000) * (SQRT_PI_HALF_FP as int) / 0x1_0000
}

/// Samples the analytical reference curve `y = sqrt(x) * sqrt(pi) / 2` at
/// 1000 evenly spaced points across the observed step range, as
/// fixed-point `(x, y)` pairs.
pub fn analytical_reference(max_steps: usize) -> (r: Vec<(u64, u64)>)
    requires
        max_steps <= MAX_HISTORY_LEN,
    ensures
        r@.len() == CURVE_SAMPLES,
        forall|i: int|
            0 <= i < r@.len() ==> (#[trigger] r@[i]).0 == analytical_x(max_steps as int, i)
                && r@[i].1 == analytical_y(analytical_x(max_steps as int, i)),
{
    let mut r: Vec<(u64, u64)> = Vec::with_capacity(CURVE_SAMPLES);
    let mut i: usize = 0;
    while i < CURVE_SAMPLES
        invariant
            i <= CURVE_SAMPLES,
            max_steps <= MAX_HISTORY_LEN,
            r@.len() == i,
            forall|k: int|
                0 <= k < i ==> (#[trigger] r@[k]).0 == analytical_x(max_steps as int, k)
                    && r@[k].1 == analytical_y(analytical_x(max_steps as int, k)),
        decreases CURVE_SAMPLES - i,
    {
        proof {
            assert(0 <= (i as int) * (max_steps as int) * 0x1_0000 / 1000
                <= 0x4000_0000_0000) by (nonlinear_arith)
                requires
                    0 <= (i as int) < 1000 && 0 <= (max_steps as int) <= 0x3FFF_FFFF,
            ;
        }
        let x_fp: u64 = (((i as u128) * (max_steps as u128) * 0x1_0000) / 1000) as u64;
        let s: u64 = isqrt_u128((x_fp as u128) * 0x1_0000);
        proof {
            assert(s * s <= (x_fp as int) * 0x1_0000 ==> s <= 0x8000_0000_0000) by (nonlinear_arith)
                requires
                    0 <= s && 0 <= x_fp <= 0x4000_0000_0000,
            ;
        }
        let y: u64 = (((s as u128) * (SQRT_PI_HALF_FP as u128)) / 0x1_0000) as u64;
        r.push((x_fp, y));
        i = i + 1;
    }
    r
}

/// Sums at one time index agree wherever the per-walker records agree at
/// that index.
proof fn lemma_sum_agrees(ds1: Seq<Seq<u64>>, ds2: Seq<Seq<u64>>, idx: int)
    requires
        ds1.len() == ds2.len(),
        forall|i: int| 0 <= i < ds1.len() ==> (#[trigger] ds1[i])[idx] == ds2[i][idx],
    ensures
        sum_dists_at(ds1, idx) == sum_dists_at(ds2, idx),
    decreases ds1.len(),
{
    if ds1.len() > 0 {
        lemma_sum_agrees(ds1.drop_last(), ds2.drop_last(), idx);
    }
}

/// Chunking law: extending the series for `n1` steps from the walkers'
/// records as they then stood, and then for `n2` more steps from the
/// final records, yields the same series as one extension of `n1 + n2`
/// steps from the final records — because recorded distances never change
/// once appended, so the intermediate records are prefixes of the final
/// ones.
pub proof fn lemma_chunked_extension(
    series: Seq<u64>,
    mid: Seq<Seq<u64>>,
    fin: Seq<Seq<u64>>,
    n1: nat,
    n2: nat,
)
    requires
        mid.len() == fin.len(),
        mid.len() > 0,
        forall|i: int| 0 <= i < mid.len() ==> (#[trigger] mid[i]).len() >= series.len() + n1,
        forall|i: int| 0 <= i < mid.len() ==> (#[trigger] fin[i]).len() >= mid[i].len(),
        forall|i: int|
            0 <= i < mid.len() ==> (#[trigger] fin[i]).take(mid[i].len() as int) == mid[i],
    ensures
        extended_series(extended_series(series, mid, n1), fin, n2) == extended_series(
            series,
            fin,
            n1 + n2,
        ),
{
    let first = extended_series(series, mid, n1);
    assert(first.len() == series.len() + n1);
    assert forall|idx: int|
        series.len() <= idx < series.len() + n1 implies mean_at(mid, idx) == mean_at(fin, idx) by {
        assert forall|i: int| 0 <= i < mid.len() implies (#[trigger] mid[i])[idx] == fin[i][idx] by {
            assert(fin[i].take(mid[i].len() as int) == mid[i]);
            assert(fin[i].take(mid[i].len() as int)[idx] == fin[i][idx]);
        }
        lemma_sum_agrees(mid, fin, idx);
    }
    assert(extended_series(first, fin, n2) =~= extended_series(series, fin, n1 + n2));
}

/// A mean of `u64` values fits in a `u64`.
proof fn lemma_mean_fits(sum: int, num: int)
    requires
        num > 0,
        0 <= sum <= num * 0xFFFF_FFFF_FFFF_FFFF,
    ensures
        0 <= sum / num <= 0xFFFF_FFFF_FFFF_FFFF,
{
    assert(sum / num <= 0xFFFF_FFFF_FFFF_FFFF) by (nonlinear_arith)
        requires
            num > 0 && 0 <= sum <= num * 0xFFFF_FFFF_FFFF_FFFF,
    ;
    assert(sum / num >= 0) by (nonlinear_arith)
        requires
            num > 0 && sum >= 0,
    ;
}

} // verus!
