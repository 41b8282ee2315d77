//! An ensemble of walkers: created together from one master seed through a
//! reproducible sub-seed derivation, and advanced in uniform batches.
//!
//! The sub-seed scheme is the one that deriving a generator from a running
//! master generator gives: the master is seeded from the `u64` master seed,
//! and each walker in turn takes the master's next four values as its seed
//! words. Each walker owns its generator and its history, so advancing the
//! walkers is independent per walker and the batch may be distributed; the
//! sequential order here fixes the same result that any such schedule
//! yields.

use vstd::prelude::*;

use crate::rng::{pcg_advance, pcg_derived, pcg_seeded, pcg_step, Pcg64};
use crate::walker::{
    biased_dest, dist_fp, draw53, knight_dest, unbiased_dest, Position, RandomWalker, WalkerModel,
    DRAW_HALF, MAX_HISTORY_LEN,
};

verus! {

/// The closed set of step policies a walker can follow.
#[derive(Debug, Clone, Copy, PartialEq, Eq, Structural)]
pub enum StepPolicy {
    /// Four equally likely unit moves.
    Unbiased,
    /// Unit moves biased away from the origin.
    BiasedAway,
    /// Unit moves biased toward the origin.
    BiasedToward,
    /// The example custom policy: knight moves.
    Custom,
}

/// The state after one step under `policy`: the pre-step position and its
/// distance are appended, the position moves where the policy's draws
/// send it, and the generator advances by as many draws as the policy
/// consumes.
pub open spec fn step_model(m: WalkerModel, policy: StepPolicy, bias_fp: u64) -> WalkerModel {
    let ort = match policy {
        StepPolicy::Unbiased => unbiased_dest(m.ort, draw53(m.rng)),
        StepPolicy::BiasedAway => biased_dest(
            m.ort,
            draw53(m.rng),
            draw53(pcg_step(m.rng)),
            bias_fp,
            false,
        ),
        StepPolicy::BiasedToward => biased_dest(
            m.ort,
            draw53(m.rng),
            draw53(pcg_step(m.rng)),
            bias_fp,
            true,
        ),
        StepPolicy::Custom => knight_dest(m.ort, draw53(m.rng)),
    };
    let rng = match policy {
        StepPolicy::Unbiased => pcg_step(m.rng),
        StepPolicy::BiasedAway => pcg_advance(m.rng, 2),
        StepPolicy::BiasedToward => pcg_advance(m.rng, 2),
        StepPolicy::Custom => pcg_step(m.rng),
    };
    WalkerModel {
        ort,
        positions: m.positions.push(m.ort),
        dists: m.dists.push(dist_fp(m.ort)),
        rng,
    }
}

/// The state after `n` steps under `policy`.
pub open spec fn advance_model(m: WalkerModel, policy: StepPolicy, bias_fp: u64, n: nat) -> WalkerModel
    decreases n,
{
    if n == 0 {
        m
    } else {
        step_model(advance_model(m, policy, bias_fp, (n - 1) as nat), policy, bias_fp)
    }
}

/// Each step appends exactly one position and one distance.
pub proof fn lemma_advance_model_len(m: WalkerModel, policy: StepPolicy, bias_fp: u64, n: nat)
    ensures
        advance_model(m, policy, bias_fp, n).positions.len() == m.positions.len() + n,
        advance_model(m, policy, bias_fp, n).dists.len() == m.dists.len() + n,
    decreases n,
{
    if n > 0 {
        lemma_advance_model_len(m, policy, bias_fp, (n - 1) as nat);
    }
}

/// The positions already recorded are never touched again: advancing
/// further only appends.
pub proof fn lemma_advance_model_extends(m: WalkerModel, policy: StepPolicy, bias_fp: u64, n: nat)
    ensures
        forall|i: int|
            0 <= i < m.positions.len() ==> advance_model(m, policy, bias_fp, n).positions[i]
                == m.positions[i],
        forall|i: int|
            0 <= i < m.dists.len() ==> advance_model(m, policy, bias_fp, n).dists[i] == m.dists[i],
    decreases n,
{
    if n > 0 {
        lemma_advance_model_extends(m, policy, bias_fp, (n - 1) as nat);
        lemma_advance_model_len(m, policy, bias_fp, (n - 1) as nat);
    }
}

/// Stepping is deterministic: the state after any number of steps is a
/// pure function of seed, policy and bias, so two walkers built from the
/// same seed and advanced alike agree on every recorded position,
/// bit for bit.
pub proof fn lemma_walk_deterministic(
    m1: WalkerModel,
    m2: WalkerModel,
    seed: u64,
    policy: StepPolicy,
    bias_fp: u64,
    n: nat,
)
    requires
        m1 == WalkerModel::fresh(seed),
        m2 == WalkerModel::fresh(seed),
    ensures
        advance_model(m1, policy, bias_fp, n) == advance_model(m2, policy, bias_fp, n),
        advance_model(m1, policy, bias_fp, n).positions == advance_model(
            WalkerModel::fresh(seed),
            policy,
            bias_fp,
            n,
        ).positions,
{
}

/// Advancing twice concatenates the step counts.
pub proof fn lemma_advance_model_add(
    m: WalkerModel,
    policy: StepPolicy,
    bias_fp: u64,
    n1: nat,
    n2: nat,
)
    ensures
        advance_model(advance_model(m, policy, bias_fp, n1), policy, bias_fp, n2) == advance_model(
            m,
            policy,
            bias_fp,
            n1 + n2,
        ),
    decreases n2,
{
    if n2 > 0 {
        lemma_advance_model_add(m, policy, bias_fp, n1, (n2 - 1) as nat);
        assert(advance_model(m, policy, bias_fp, (n1 + n2 - 1) as nat + 1) == step_model(
            advance_model(m, policy, bias_fp, (n1 + n2 - 1) as nat),
            policy,
            bias_fp,
        ));
    }
}

/// History invariant: after any number of steps from a well-formed state,
/// the recorded positions and distances stay aligned — equal lengths, and
/// every distance is the fixed-point distance of the position at its
/// index.
pub proof fn lemma_history_invariant(m: WalkerModel, policy: StepPolicy, bias_fp: u64, n: nat)
    requires
        m.wf(),
        m.positions.len() + n <= MAX_HISTORY_LEN,
    ensures
        advance_model(m, policy, bias_fp, n).wf(),
    decreases n,
{
    if n > 0 {
        lemma_history_invariant(m, policy, bias_fp, (n - 1) as nat);
        lemma_advance_model_len(m, policy, bias_fp, (n - 1) as nat);
    }
}

impl RandomWalker {
    /// One step under the given policy. The bias strength is in
    /// draw-range fixed point and only read by the biased policies.
    pub fn step_with_policy(&mut self, policy: StepPolicy, bias_fp: u64)
        requires
            old(self).wf(),
            old(self).history.vec@.len() < MAX_HISTORY_LEN,
            bias_fp <= DRAW_HALF,
        ensures
            final(self).wf(),
            final(self)@ == step_model(old(self)@, policy, bias_fp),
    {
        match policy {
            StepPolicy::Unbiased => self.random_step(),
            StepPolicy::BiasedAway => self.random_step_biased_away(bias_fp),
            StepPolicy::BiasedToward => self.random_step_biased_to_origin(bias_fp),
            StepPolicy::Custom => self.your_step_function(bias_fp),
        }
    }

    /// Advances the walker by `steps` steps under the given policy.
    pub fn advance(&mut self, steps: usize, policy: StepPolicy, bias_fp: u64)
        requires
            old(self).wf(),
            old(self).history.vec@.len() + steps <= MAX_HISTORY_LEN,
            bias_fp <= DRAW_HALF,
        ensures
            final(self).wf(),
            final(self)@ == advance_model(old(self)@, policy, bias_fp, steps as nat),
    {
        let ghost m0 = self@;
        let mut i: usize = 0;
        while i < steps
            invariant
                i <= steps,
                self.wf(),
                bias_fp <= DRAW_HALF,
                m0.positions.len() + steps <= MAX_HISTORY_LEN,
                self@ == advance_model(m0, policy, bias_fp, i as nat),
            decreases steps - i,
        {
            proof {
                lemma_advance_model_len(m0, policy, bias_fp, i as nat);
            }
            self.step_with_policy(policy, bias_fp);
            i = i + 1;
        }
    }
}

/// The generator of the `i`-th walker of an ensemble with master seed
/// `seed`: derived from the master generator after the four draws of each
/// earlier walker.
pub open spec fn sub_rng(seed: u64, i: nat) -> Pcg64 {
    pcg_derived(pcg_advance(pcg_seeded(seed), 4 * i))
}

/// Advancing a generator twice concatenates the step counts.
pub proof fn lemma_pcg_advance_add(g: Pcg64, m: nat, n: nat)
    ensures
        pcg_advance(pcg_advance(g, m), n) == pcg_advance(g, m + n),
    decreases n,
{
    if n > 0 {
        lemma_pcg_advance_add(g, m, (n - 1) as nat);
        assert(pcg_advance(g, (m + n - 1) as nat + 1) == pcg_step(
            pcg_advance(g, (m + n - 1) as nat),
        ));
    }
}

/// Creates `count` walkers at the origin with empty histories, their
/// generators derived in order from one master generator seeded with
/// `seed`, each with the same capacity hint.
pub fn create_walkers(seed: u64, count: usize, capacity: usize) -> (ws: Vec<RandomWalker>)
    ensures
        ws@.len() == count,
        forall|i: int|
            0 <= i < count ==> (#[trigger] ws@[i])@ == (WalkerModel {
                rng: sub_rng(seed, i as nat),
                ..WalkerModel::fresh(seed)
            }),
        forall|i: int| 0 <= i < count ==> (#[trigger] ws@[i]).wf(),
{
    let mut master = Pcg64::seed_from_u64(seed);
    let mut ws: Vec<RandomWalker> = Vec::with_capacity(count);
    let mut i: usize = 0;
    while i < count
        invariant
            i <= count,
            ws@.len() == i,
            master == pcg_advance(pcg_seeded(seed), 4 * i as nat),
            forall|j: int|
                0 <= j < i ==> (#[trigger] ws@[j])@ == (WalkerModel {
                    rng: sub_rng(seed, j as nat),
                    ..WalkerModel::fresh(seed)
                }),
            forall|j: int| 0 <= j < i ==> (#[trigger] ws@[j]).wf(),
        decreases count - i,
    {
        let rng = Pcg64::from_rng(&mut master);
        let w = RandomWalker::with_capacity_and_rng(rng, capacity);
        ws.push(w);
        proof {
            lemma_pcg_advance_add(pcg_seeded(seed), 4 * i as nat, 4);
        }
        i = i + 1;
    }
    ws
}

/// Advances every walker whose history is still below the step limit by
/// `do_steps` steps; walkers at or past the limit stay untouched. The
/// limit only pauses whole batches: a batch that begins below the limit
/// runs to completion.
pub fn advance_walkers(
    walkers: &mut Vec<RandomWalker>,
    do_steps: usize,
    policy: StepPolicy,
    bias_fp: u64,
    step_limit: usize,
)
    requires
        forall|i: int| 0 <= i < old(walkers)@.len() ==> (#[trigger] old(walkers)@[i]).wf(),
        forall|i: int|
            0 <= i < old(walkers)@.len() ==> (#[trigger] old(walkers)@[i]).history.vec@.len()
                + do_steps <= MAX_HISTORY_LEN,
        bias_fp <= DRAW_HALF,
    ensures
        final(walkers)@.len() == old(walkers)@.len(),
        forall|i: int|
            0 <= i < old(walkers)@.len() ==> (#[trigger] final(walkers)@[i])@ == (
            if old(walkers)@[i].history.vec@.len() < step_limit {
                advance_model(old(walkers)@[i]@, policy, bias_fp, do_steps as nat)
            } else {
                old(walkers)@[i]@
            }),
        forall|i: int| 0 <= i < final(walkers)@.len() ==> (#[trigger] final(walkers)@[i]).wf(),
{
    let n = walkers.len();
    let mut i: usize = 0;
    while i < n
        invariant
            i <= n,
            n == walkers@.len() == old(walkers)@.len(),
            bias_fp <= DRAW_HALF,
            forall|j: int| i <= j < n ==> walkers@[j] == old(walkers)@[j],
            forall|j: int|
                0 <= j < n ==> (#[trigger] old(walkers)@[j]).history.vec@.len() + do_steps
                    <= MAX_HISTORY_LEN,
            forall|j: int| 0 <= j < n ==> (#[trigger] old(walkers)@[j]).wf(),
            forall|j: int|
                0 <= j < i ==> (#[trigger] walkers@[j])@ == (
                if old(walkers)@[j].history.vec@.len() < step_limit {
                    advance_model(old(walkers)@[j]@, policy, bias_fp, do_steps as nat)
                } else {
                    old(walkers)@[j]@
                }),
            forall|j: int| 0 <= j < i ==> (#[trigger] walkers@[j]).wf(),
        decreases n - i,
    {
        let w = &mut walkers[i];
        if w.history.len() < step_limit {
            w.advance(do_steps, policy, bias_fp);
        }
        i = i + 1;
    }
}

} // verus!
