//! The random walker: an integer position on the 2D lattice, an append-only
//! history of visited positions with precomputed distances from the origin,
//! and a private generator, advanced by one of several step policies.
//!
//! A step consumes draws from the walker's own stream and appends exactly
//! one position to the history: the position *before* the move, so the
//! history records the visited cells in time order. Random draws are the
//! 53 uniform bits that back a double-precision draw `u` in `[0, 1)`
//! (`u = draw / 2^53`), so comparing a draw against `q * 2^53` is the exact
//! integer form of comparing `u` against a probability `q`. Distances are
//! kept in fixed point with 16 fractional bits.

use vstd::prelude::*;

use crate::math::{isqrt_u128, lemma_sqrt_floor_is, sqrt_floor};
use crate::rng::{pcg_advance, pcg_output, pcg_seeded, pcg_step, Pcg64};

verus! {

/// One quarter of the draw range: the draw value that stands for 0.25.
pub const DRAW_QUARTER: u64 = 0x8_0000_0000_0000;

/// Half of the draw range: the draw value that stands for 0.5. A bias
/// strength in fixed point may be at most this value (a probability shift
/// of one half).
pub const DRAW_HALF: u64 = 0x10_0000_0000_0000;

/// Three quarters of the draw range: the draw value that stands for 0.75.
pub const DRAW_THREE_QUARTERS: u64 = 0x18_0000_0000_0000;

/// The whole draw range: 2^53. A draw is always below this value.
pub const DRAW_SCALE: u64 = 0x20_0000_0000_0000;

/// One eighth of the draw range, used by the custom step policy.
pub const DRAW_EIGHTH: u64 = 0x4_0000_0000_0000;

/// The largest history length up to which a walker may still step: it
/// leaves enough headroom that coordinates, which move by at most two per
/// step, never overflow an `i32`.
pub const MAX_HISTORY_LEN: usize = 0x3FFF_FFFF;

/// A point of the unbounded 2D integer lattice.
#[derive(Debug, Clone, Copy, PartialEq, Eq, Hash, Structural)]
pub struct Position {
    pub x: i32,
    pub y: i32,
}

/// The squared Euclidean distance of a position from the origin.
pub open spec fn dist_sq(p: Position) -> int {
    p.x * p.x + p.y * p.y
}

/// The distance of a position from the origin, in fixed point with 16
/// fractional bits, rounded down.
pub open spec fn dist_fp(p: Position) -> u64 {
    sqrt_floor(dist_sq(p) * 0x1_0000_0000) as u64
}

/// The visited positions in time order, and, index-aligned, their
/// fixed-point distances from the origin.
#[derive(Debug, Clone)]
pub struct History {
    pub vec: Vec<Position>,
    pub distance_from_origin: Vec<u64>,
}

impl History {
    /// Both sequences always have the same length, and every stored
    /// distance is the fixed-point distance of the position at its index.
    pub open spec fn wf(self) -> bool {
        &&& self.distance_from_origin@.len() == self.vec@.len()
        &&& forall|i: int|
            0 <= i < self.vec@.len() ==> self.distance_from_origin@[i] == dist_fp(
                #[trigger] self.vec@[i],
            )
    }

    /// An empty history.
    pub fn new() -> (r: Self)
        ensures
            r.vec@ == Seq::<Position>::empty(),
            r.distance_from_origin@ == Seq::<u64>::empty(),
            r.wf(),
    {
        Self::default()
    }

    /// An empty history with room preallocated for `capacity` steps; the
    /// capacity is only a hint, never a limit.
    pub fn with_capacity(capacity: usize) -> (r: Self)
        ensures
            r.vec@ == Seq::<Position>::empty(),
            r.distance_from_origin@ == Seq::<u64>::empty(),
            r.wf(),
    {
        History {
            vec: Vec::with_capacity(capacity),
            distance_from_origin: Vec::with_capacity(capacity),
        }
    }

    /// Whether no position was recorded yet.
    pub fn is_empty(&self) -> (r: bool)
        ensures
            r == (self.vec@.len() == 0),
    {
        self.vec.len() == 0
    }

    /// The number of recorded positions.
    pub fn len(&self) -> (r: usize)
        ensures
            r == self.vec@.len(),
    {
        self.vec.len()
    }

    /// Appends a position together with its precomputed fixed-point
    /// distance from the origin.
    pub fn push(&mut self, pos: Position)
        requires
            old(self).wf(),
        ensures
            final(self).wf(),
            final(self).vec@ == old(self).vec@.push(pos),
            final(self).distance_from_origin@ == old(self).distance_from_origin@.push(
                dist_fp(pos),
            ),
    {
        let d = distance_fp(&pos);
        self.vec.push(pos);
        self.distance_from_origin.push(d);
    }

    /// The decimated view of the recorded distances: every hundredth
    /// sample, starting at index 0, for cheap large-scale plotting.
    pub fn decimated_distances(&self) -> (r: Vec<u64>)
        ensures
            r@.len() == (self.distance_from_origin@.len() + 99) / 100,
            forall|i: int| 0 <= i < r@.len() ==> r@[i] == self.distance_from_origin@[i * 100],
    {
        let len = self.distance_from_origin.len();
        let mut r: Vec<u64> = Vec::new();
        if len == 0 {
            return r;
        }
        let mut i: usize = 0;
        loop
            invariant_except_break
                i % 100 == 0,
                i < len,
                len == self.distance_from_origin@.len(),
                r@.len() * 100 == i,
                forall|k: int| 0 <= k < r@.len() ==> r@[k] == self.distance_from_origin@[k * 100],
            ensures
                len == self.distance_from_origin@.len(),
                i % 100 == 0,
                i < len <= i + 100,
                (r@.len() - 1) * 100 == i,
                forall|k: int| 0 <= k < r@.len() ==> r@[k] == self.distance_from_origin@[k * 100],
            decreases len - i,
        {
            r.push(self.distance_from_origin[i]);
            if len - i <= 100 {
                break ;
            }
            i = i + 100;
        }
        proof {
            let li = i as int;
            let ll = len as int;
            let rl = r@.len() as int;
            assert((ll + 99) / 100 == li / 100 + 1 && rl == li / 100 + 1) by (nonlinear_arith)
                requires
                    li % 100 == 0,
                    li >= 0,
                    li < ll <= li + 100,
                    (rl - 1) * 100 == li,
            ;
        }
        r
    }
}

impl Default for History {
    /// An empty history.
    fn default() -> (r: Self)
        ensures
            r.vec@ == Seq::<Position>::empty(),
            r.distance_from_origin@ == Seq::<u64>::empty(),
            r.wf(),
    {
        History { vec: Vec::new(), distance_from_origin: Vec::new() }
    }
}

/// Computes the fixed-point distance of a position from the origin.
pub fn distance_fp(pos: &Position) -> (r: u64)
    ensures
        r == dist_fp(*pos),
{
    let ax: i64 = if pos.x >= 0 {
        pos.x as i64
    } else {
        -(pos.x as i64)
    };
    let ay: i64 = if pos.y >= 0 {
        pos.y as i64
    } else {
        -(pos.y as i64)
    };
    proof {
        assert(ax * ax == pos.x * pos.x && ax * ax <= 0x4000_0000_0000_0000) by (nonlinear_arith)
            requires
                (ax == pos.x || ax == -(pos.x as int)) && -0x8000_0000 <= pos.x <= 0x7FFF_FFFF
                    && ax >= 0,
        ;
        assert(ay * ay == pos.y * pos.y && ay * ay <= 0x4000_0000_0000_0000) by (nonlinear_arith)
            requires
                (ay == pos.y || ay == -(pos.y as int)) && -0x8000_0000 <= pos.y <= 0x7FFF_FFFF
                    && ay >= 0,
        ;
    }
    let sq: u64 = (ax * ax) as u64 + (ay * ay) as u64;
    let scaled: u128 = (sq as u128) * 0x1_0000_0000;
    let r = isqrt_u128(scaled);
    proof {
        lemma_sqrt_floor_is(dist_sq(*pos) * 0x1_0000_0000, r as int);
    }
    r
}

/// The 53-bit draw that the next `next_u64` value of `g` yields: its top
/// 53 bits, the bits that back a uniform double-precision draw in
/// `[0, 1)`.
pub open spec fn draw53(g: Pcg64) -> u64 {
    pcg_output(pcg_step(g).state) >> 11
}

/// Where one unbiased step moves from `p`: the four unit moves each take a
/// quarter of the draw range, with boundaries at 0.25, 0.5 and 0.75 —
/// right, left, up, down in that order.
pub open spec fn unbiased_dest(p: Position, d: u64) -> Position {
    if d < DRAW_QUARTER {
        Position { x: (p.x + 1) as i32, y: p.y }
    } else if d < DRAW_HALF {
        Position { x: (p.x - 1) as i32, y: p.y }
    } else if d < DRAW_THREE_QUARTERS {
        Position { x: p.x, y: (p.y + 1) as i32 }
    } else {
        Position { x: p.x, y: (p.y - 1) as i32 }
    }
}

/// Whether the first draw of a biased step selects the y axis: it does
/// when the draw stands for a value above 0.5.
pub open spec fn axis_is_y(d1: u64) -> bool {
    d1 > DRAW_HALF
}

/// The threshold below which the second draw of a biased step moves the
/// selected coordinate in the positive direction. The move away from the
/// origin has probability one half plus the bias; with `toward` the bias
/// flips sign; on the axis (coordinate zero) the step is fair.
pub open spec fn plus_threshold(coord: int, bias_fp: u64, toward: bool) -> int {
    if coord == 0 {
        DRAW_HALF as int
    } else if (coord > 0) == toward {
        DRAW_HALF - bias_fp
    } else {
        DRAW_HALF + bias_fp
    }
}

/// Where one biased step moves from `p`: the first draw selects the axis,
/// the second the direction along it.
pub open spec fn biased_dest(p: Position, d1: u64, d2: u64, bias_fp: u64, toward: bool) -> Position {
    if axis_is_y(d1) {
        if d2 < plus_threshold(p.y as int, bias_fp, toward) {
            Position { x: p.x, y: (p.y + 1) as i32 }
        } else {
            Position { x: p.x, y: (p.y - 1) as i32 }
        }
    } else {
        if d2 < plus_threshold(p.x as int, bias_fp, toward) {
            Position { x: (p.x + 1) as i32, y: p.y }
        } else {
            Position { x: (p.x - 1) as i32, y: p.y }
        }
    }
}

/// Where the example custom step moves from `p`: one draw picks among the
/// eight knight moves, one per eighth of the draw range, clockwise from
/// `(1, 2)`.
pub open spec fn knight_dest(p: Position, d: u64) -> Position {
    let k = d / DRAW_EIGHTH;
    if k == 0 {
        Position { x: (p.x + 1) as i32, y: (p.y + 2) as i32 }
    } else if k == 1 {
        Position { x: (p.x + 2) as i32, y: (p.y + 1) as i32 }
    } else if k == 2 {
        Position { x: (p.x + 2) as i32, y: (p.y - 1) as i32 }
    } else if k == 3 {
        Position { x: (p.x + 1) as i32, y: (p.y - 2) as i32 }
    } else if k == 4 {
        Position { x: (p.x - 1) as i32, y: (p.y - 2) as i32 }
    } else if k == 5 {
        Position { x: (p.x - 2) as i32, y: (p.y - 1) as i32 }
    } else if k == 6 {
        Position { x: (p.x - 2) as i32, y: (p.y + 1) as i32 }
    } else {
        Position { x: (p.x - 1) as i32, y: (p.y + 2) as i32 }
    }
}

/// A walker: its current position, its history, and its own generator,
/// never shared, so that identical seeds reproduce identical trajectories.
#[derive(Debug, Clone)]
pub struct RandomWalker {
    pub ort: Position,
    pub history: History,
    pub rng: Pcg64,
}

/// The mathematical state of a walker: its position, the recorded
/// positions and distances as sequences, and its generator.
pub struct WalkerModel {
    pub ort: Position,
    pub positions: Seq<Position>,
    pub dists: Seq<u64>,
    pub rng: Pcg64,
}

impl WalkerModel {
    /// Both sequences have the same length, every recorded distance is the
    /// fixed-point distance of the position at its index, and the current
    /// position is within reach of the origin: no step policy moves a
    /// coordinate by more than two.
    pub open spec fn wf(self) -> bool {
        &&& self.dists.len() == self.positions.len()
        &&& forall|i: int|
            0 <= i < self.positions.len() ==> self.dists[i] == dist_fp(#[trigger] self.positions[i])
        &&& -2 * self.positions.len() <= self.ort.x <= 2 * self.positions.len()
        &&& -2 * self.positions.len() <= self.ort.y <= 2 * self.positions.len()
    }

    /// The state of a walker fresh from `seed`: at the origin, with an
    /// empty history.
    pub open spec fn fresh(seed: u64) -> WalkerModel {
        WalkerModel {
            ort: Position { x: 0, y: 0 },
            positions: Seq::empty(),
            dists: Seq::empty(),
            rng: pcg_seeded(seed),
        }
    }
}

impl View for RandomWalker {
    type V = WalkerModel;

    open spec fn view(&self) -> WalkerModel {
        WalkerModel {
            ort: self.ort,
            positions: self.history.vec@,
            dists: self.history.distance_from_origin@,
            rng: self.rng,
        }
    }
}

impl RandomWalker {
    /// The walker's state is well formed.
    pub open spec fn wf(self) -> bool {
        self@.wf()
    }

    /// A walker at the origin with an empty history, its generator seeded
    /// from the given seed, with room for 100000 steps.
    pub fn new(seed: u64) -> (r: Self)
        ensures
            r.ort == (Position { x: 0, y: 0 }),
            r.history.vec@ == Seq::<Position>::empty(),
            r.history.distance_from_origin@ == Seq::<u64>::empty(),
            r.rng == pcg_seeded(seed),
            r.wf(),
    {
        let rng = Pcg64::seed_from_u64(seed);
        Self::with_capacity_and_rng(rng, 100000)
    }

    /// A walker at the origin with an empty history and the given
    /// generator; the capacity is only a preallocation hint.
    pub fn with_capacity_and_rng(rng: Pcg64, capacity: usize) -> (r: Self)
        ensures
            r.ort == (Position { x: 0, y: 0 }),
            r.history.vec@ == Seq::<Position>::empty(),
            r.history.distance_from_origin@ == Seq::<u64>::empty(),
            r.rng == rng,
            r.wf(),
    {
        RandomWalker { ort: Position { x: 0, y: 0 }, history: History::with_capacity(capacity), rng }
    }

    /// Consumes one unit of the walker's randomness stream and returns the
    /// 53-bit draw that stands for a uniform value in `[0, 1)`.
    pub fn get_random_number(&mut self) -> (r: u64)
        ensures
            final(self).rng == pcg_step(old(self).rng),
            final(self).ort == old(self).ort,
            final(self).history == old(self).history,
            r == draw53(old(self).rng),
            r < DRAW_SCALE,
    {
        let v = self.rng.next_u64();
        proof {
            assert(v >> 11 < 0x20_0000_0000_0000) by (bit_vector);
        }
        v >> 11
    }

    /// One unbiased step: appends the pre-step position to the history and
    /// moves one cell right, left, up or down, each with probability one
    /// quarter.
    pub fn random_step(&mut self)
        requires
            old(self).wf(),
            old(self).history.vec@.len() < MAX_HISTORY_LEN,
        ensures
            final(self).wf(),
            final(self).rng == pcg_step(old(self).rng),
            final(self).history.vec@ == old(self).history.vec@.push(old(self).ort),
            final(self).history.distance_from_origin@ == old(
                self,
            ).history.distance_from_origin@.push(dist_fp(old(self).ort)),
            final(self).ort == unbiased_dest(old(self).ort, draw53(old(self).rng)),
    {
        let probability = self.get_random_number();
        let alter_ort = self.ort;
        if probability < DRAW_QUARTER {
            self.ort.x = self.ort.x + 1;
        } else if probability < DRAW_HALF {
            self.ort.x = self.ort.x - 1;
        } else if probability < DRAW_THREE_QUARTERS {
            self.ort.y = self.ort.y + 1;
        } else {
            self.ort.y = self.ort.y - 1;
        }
        self.history.push(alter_ort);
    }

    /// One step biased away from the origin: the first draw selects the
    /// axis, the second moves away from the origin with probability one
    /// half plus the bias (fair on the axis itself). The bias strength is
    /// in draw-range fixed point, at most one half (`DRAW_HALF`).
    pub fn random_step_biased_away(&mut self, strength_of_bias: u64)
        requires
            old(self).wf(),
            old(self).history.vec@.len() < MAX_HISTORY_LEN,
            strength_of_bias <= DRAW_HALF,
        ensures
            final(self).wf(),
            final(self).rng == pcg_advance(old(self).rng, 2),
            final(self).history.vec@ == old(self).history.vec@.push(old(self).ort),
            final(self).history.distance_from_origin@ == old(
                self,
            ).history.distance_from_origin@.push(dist_fp(old(self).ort)),
            final(self).ort == biased_dest(
                old(self).ort,
                draw53(old(self).rng),
                draw53(pcg_step(old(self).rng)),
                strength_of_bias,
                false,
            ),
    {
        self.biased_step(strength_of_bias, false);
    }

    /// One step biased toward the origin: as the step away, with the sign
    /// of the bias flipped.
    pub fn random_step_biased_to_origin(&mut self, strength_of_bias: u64)
        requires
            old(self).wf(),
            old(self).history.vec@.len() < MAX_HISTORY_LEN,
            strength_of_bias <= DRAW_HALF,
        ensures
            final(self).wf(),
            final(self).rng == pcg_advance(old(self).rng, 2),
            final(self).history.vec@ == old(self).history.vec@.push(old(self).ort),
            final(self).history.distance_from_origin@ == old(
                self,
            ).history.distance_from_origin@.push(dist_fp(old(self).ort)),
            final(self).ort == biased_dest(
                old(self).ort,
                draw53(old(self).rng),
                draw53(pcg_step(old(self).rng)),
                strength_of_bias,
                true,
            ),
    {
        self.biased_step(strength_of_bias, true);
    }

    /// The common body of the two biased steps.
    #[verifier::rlimit(60)]
    fn biased_step(&mut self, strength_of_bias: u64, toward: bool)
        requires
            old(self).wf(),
            old(self).history.vec@.len() < MAX_HISTORY_LEN,
            strength_of_bias <= DRAW_HALF,
        ensures
            final(self).wf(),
            final(self).rng == pcg_advance(old(self).rng, 2),
            final(self).history.vec@ == old(self).history.vec@.push(old(self).ort),
            final(self).history.distance_from_origin@ == old(
                self,
            ).history.distance_from_origin@.push(dist_fp(old(self).ort)),
            final(self).ort == biased_dest(
                old(self).ort,
                draw53(old(self).rng),
                draw53(pcg_step(old(self).rng)),
                strength_of_bias,
                toward,
            ),
    {
        let d1 = self.get_random_number();
        let d2 = self.get_random_number();
        let alter_ort = self.ort;
        if d1 > DRAW_HALF {
            let thr = plus_threshold_exec(self.ort.y, strength_of_bias, toward);
            if d2 < thr {
                self.ort.y = self.ort.y + 1;
            } else {
                self.ort.y = self.ort.y - 1;
            }
        } else {
            let thr = plus_threshold_exec(self.ort.x, strength_of_bias, toward);
            if d2 < thr {
                self.ort.x = self.ort.x + 1;
            } else {
                self.ort.x = self.ort.x - 1;
            }
        }
        self.history.push(alter_ort);
        proof {
            crate::rng::lemma_pcg_advance_unfold(old(self).rng, 2);
        }
    }

    /// One step of the example custom policy: one draw picks among the
    /// eight knight moves, each with probability one eighth. The bias
    /// strength is not used.
    pub fn your_step_function(&mut self, _strength_of_bias: u64)
        requires
            old(self).wf(),
            old(self).history.vec@.len() < MAX_HISTORY_LEN,
        ensures
            final(self).wf(),
            final(self).rng == pcg_step(old(self).rng),
            final(self).history.vec@ == old(self).history.vec@.push(old(self).ort),
            final(self).history.distance_from_origin@ == old(
                self,
            ).history.distance_from_origin@.push(dist_fp(old(self).ort)),
            final(self).ort == knight_dest(old(self).ort, draw53(old(self).rng)),
    {
        let probability = self.get_random_number();
        let alter_ort = self.ort;
        let k = probability / DRAW_EIGHTH;
        if k == 0 {
            self.ort.x = self.ort.x + 1;
            self.ort.y = self.ort.y + 2;
        } else if k == 1 {
            self.ort.x = self.ort.x + 2;
            self.ort.y = self.ort.y + 1;
        } else if k == 2 {
            self.ort.x = self.ort.x + 2;
            self.ort.y = self.ort.y - 1;
        } else if k == 3 {
            self.ort.x = self.ort.x + 1;
            self.ort.y = self.ort.y - 2;
        } else if k == 4 {
            self.ort.x = self.ort.x - 1;
            self.ort.y = self.ort.y - 2;
        } else if k == 5 {
            self.ort.x = self.ort.x - 2;
            self.ort.y = self.ort.y - 1;
        } else if k == 6 {
            self.ort.x = self.ort.x - 2;
            self.ort.y = self.ort.y + 1;
        } else {
            self.ort.x = self.ort.x - 1;
            self.ort.y = self.ort.y + 2;
        }
        self.history.push(alter_ort);
    }
}

/// Computes the positive-direction threshold of a biased step.
fn plus_threshold_exec(coord: i32, bias_fp: u64, toward: bool) -> (r: u64)
    requires
        bias_fp <= DRAW_HALF,
    ensures
        r == plus_threshold(coord as int, bias_fp, toward),
{
    if coord == 0 {
        DRAW_HALF
    } else if (coord > 0) == toward {
        DRAW_HALF - bias_fp
    } else {
        DRAW_HALF + bias_fp
    }
}

} // verus!
