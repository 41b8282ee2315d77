//! The redraw change tracker: a small decision policy that balances the
//! cost of a full geometry rebuild (linear in the whole history) against
//! an incremental patch (linear in the new steps only).
//!
//! A dirty flag forces a full rebuild after anything that invalidates the
//! whole picture; otherwise the accumulated count of unrendered steps is
//! held against a threshold that scales with the configured simulation
//! speed, so fast runs still redraw at an acceptable cadence while slow
//! runs avoid redundant rebuilds.

use vstd::prelude::*;

verus! {

/// What the redraw decision should favor.
#[derive(PartialEq, Eq, Structural, Clone, Copy, Debug)]
pub enum PerformanceHint {
    /// Redraw sparingly; decimate plots.
    PrioritizePerformance,
    /// Redraw on every change; use every sample.
    PrioritizeOptics,
}

/// The tracker's state: a dirty flag that forces a full rebuild, the step
/// count of the last fully rendered frame, and the number of steps taken
/// since the last redraw.
#[derive(Clone, Copy, Debug)]
pub struct MeshChangeTracker {
    pub changed: bool,
    pub old_steps: usize,
    pub accumulated_change: usize,
}

/// The redraw threshold for the throughput-minded hint: at least 10, and
/// growing as 18 steps per unit of speed, rounded to the nearest whole
/// step. The speed is in thousandths (a speed of one unit is
/// `speed_milli == 1000`).
pub open spec fn redraw_threshold(speed_milli: u64) -> int {
    let scaled = (speed_milli * 18 + 500) / 1000;
    if scaled > 10 {
        scaled
    } else {
        10
    }
}

/// The redraw decision: always redraw while dirty; under the optics hint
/// redraw whenever any step is unrendered; under the throughput hint only
/// once the unrendered steps exceed the speed-scaled threshold.
pub open spec fn spec_needs_redraw(
    t: MeshChangeTracker,
    speed_milli: u64,
    priority: PerformanceHint,
) -> bool {
    if t.changed {
        true
    } else {
        match priority {
            PerformanceHint::PrioritizeOptics => t.accumulated_change > 0,
            PerformanceHint::PrioritizePerformance => t.accumulated_change > redraw_threshold(
                speed_milli,
            ),
        }
    }
}

impl MeshChangeTracker {
    /// A fresh tracker: dirty, so the first frame is always a full build.
    pub fn new() -> (r: Self)
        ensures
            r.changed == true,
            r.old_steps == 0,
            r.accumulated_change == 0,
    {
        MeshChangeTracker { changed: true, old_steps: 0, accumulated_change: 0 }
    }

    /// Forgets the rendered geometry: the next frame rebuilds in full. The
    /// accumulated count is left to the completion of that rebuild.
    pub fn reset(&mut self)
        ensures
            final(self).changed == true,
            final(self).old_steps == 0,
            final(self).accumulated_change == old(self).accumulated_change,
    {
        self.changed = true;
        self.old_steps = 0;
    }

    /// Requests a full rebuild without touching the step bookkeeping.
    pub fn request_redraw(&mut self)
        ensures
            final(self).changed == true,
            final(self).old_steps == old(self).old_steps,
            final(self).accumulated_change == old(self).accumulated_change,
    {
        self.changed = true;
    }

    /// Records that a full rebuild up to `steps` steps has completed: the
    /// tracker is clean and nothing is unrendered.
    pub fn redraw_finished(&mut self, steps: usize)
        ensures
            final(self).changed == false,
            final(self).old_steps == steps,
            final(self).accumulated_change == 0,
    {
        self.changed = false;
        self.accumulated_change = 0;
        self.old_steps = steps;
    }

    /// Decides whether the next frame needs a redraw. The speed is in
    /// thousandths of the configured simulation speed.
    pub fn check_if_needs_redraw(&self, speed_milli: u64, priority: PerformanceHint) -> (r: bool)
        ensures
            r == spec_needs_redraw(*self, speed_milli, priority),
    {
        if self.changed {
            true
        } else {
            match priority {
                PerformanceHint::PrioritizeOptics => self.accumulated_change > 0,
                PerformanceHint::PrioritizePerformance => {
                    let scaled: u64 = (((speed_milli as u128) * 18 + 500) / 1000) as u64;
                    proof {
                        assert(((speed_milli as int) * 18 + 500) / 1000 <= u64::MAX)
                            by (nonlinear_arith)
                            requires
                                speed_milli <= u64::MAX,
                        ;
                    }
                    let threshold: u64 = if scaled > 10 {
                        scaled
                    } else {
                        10
                    };
                    (self.accumulated_change as u128) > (threshold as u128)
                },
            }
        }
    }

    /// Folds freshly taken steps into the tracker on the incremental
    /// path: advances the rendered step count to `steps` and adds the
    /// difference to the unrendered count.
    pub fn new_steps(&mut self, steps: usize)
        requires
            steps >= old(self).old_steps,
            old(self).accumulated_change + (steps - old(self).old_steps) <= usize::MAX,
        ensures
            final(self).changed == old(self).changed,
            final(self).old_steps == steps,
            final(self).accumulated_change == old(self).accumulated_change + (steps - old(
                self,
            ).old_steps),
    {
        let diff = steps - self.old_steps;
        self.old_steps = steps;
        self.accumulated_change = self.accumulated_change + diff;
    }

    /// The step count of the last fully rendered frame.
    pub fn get_current_step(&self) -> (r: usize)
        ensures
            r == self.old_steps,
    {
        self.old_steps
    }
}

} // verus!
