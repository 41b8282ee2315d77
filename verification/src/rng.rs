//! A permuted congruential generator with 128-bit state and 64-bit output
//! (the XSL-RR variant commonly called pcg64), together with the usual
//! sub-seeding schemes: expanding one `u64` master seed into a full 256-bit
//! seed, and deriving an independent generator from a running one.
//!
//! The generator is modelled exactly, so that a walk is a pure function of
//! its seed and identical seeds reproduce identical trajectories
//! bit-for-bit.

use vstd::prelude::*;

verus! {

/// The multiplier of the 128-bit linear congruential step.
pub const PCG_MULTIPLIER: u128 = 0x2360_ED05_1FC6_5DA4_4385_DF64_9FCC_F645;

/// Multiplier of the 64-bit mixing chain that expands a `u64` seed.
pub const SEED_MIX_MULTIPLIER: u64 = 6364136223846793005;

/// Increment of the 64-bit mixing chain that expands a `u64` seed.
pub const SEED_MIX_INCREMENT: u64 = 11634580027462260723;

/// A pcg64 generator: 128 bits of state and a 128-bit odd increment that
/// selects the stream.
#[derive(Clone, Copy, PartialEq, Eq, Structural, Debug)]
pub struct Pcg64 {
    pub state: u128,
    pub increment: u128,
}

/// Right rotation of a 64-bit value by `rot` bits, for `rot < 64`.
pub open spec fn spec_rotr64(x: u64, rot: u64) -> u64 {
    if rot == 0 {
        x
    } else {
        (x >> rot) | (x << ((64 - rot) as u64))
    }
}

/// Right rotation of a 32-bit value by `rot` bits, for `rot < 32`.
pub open spec fn spec_rotr32(x: u32, rot: u32) -> u32 {
    if rot == 0 {
        x
    } else {
        (x >> rot) | (x << ((32 - rot) as u32))
    }
}

/// One step of the linear congruential state update.
#[verifier::opaque]
pub open spec fn pcg_step(g: Pcg64) -> Pcg64 {
    Pcg64 {
        state: g.state.wrapping_mul(PCG_MULTIPLIER).wrapping_add(g.increment),
        increment: g.increment,
    }
}

/// The XSL-RR output permutation: xor the state's halves, then rotate by
/// the state's top six bits.
#[verifier::opaque]
pub open spec fn pcg_output(state: u128) -> u64 {
    let rot = (state >> 122) as u64;
    let xsl = ((state >> 64) as u64) ^ (state as u64);
    spec_rotr64(xsl, rot)
}

/// The generator after `n` steps.
pub open spec fn pcg_advance(g: Pcg64, n: nat) -> Pcg64
    decreases n,
{
    if n == 0 {
        g
    } else {
        pcg_step(pcg_advance(g, (n - 1) as nat))
    }
}

/// The `k`-th value that `next_u64` returns, counting from 0.
pub open spec fn pcg_value(g: Pcg64, k: nat) -> u64 {
    pcg_output(pcg_advance(g, k + 1).state)
}

/// A generator built from a 128-bit state seed and an increment whose low
/// bit is already set: the increment is added to the state once and the
/// state is stepped once, to move away from the seed value.
#[verifier::opaque]
pub open spec fn pcg_init(state_seed: u128, increment: u128) -> Pcg64 {
    pcg_step(Pcg64 { state: state_seed.wrapping_add(increment), increment })
}

/// A generator built from four 64-bit seed words, read little-endian: the
/// first two form the state seed, the last two the stream, whose low bit
/// is forced to one so the increment is odd.
pub open spec fn pcg_from_seed_words(w0: u64, w1: u64, w2: u64, w3: u64) -> Pcg64 {
    let state_seed = (w0 as u128) | ((w1 as u128) << 64);
    let incr = ((w2 as u128) | ((w3 as u128) << 64)) | 1;
    pcg_init(state_seed, incr)
}

/// One advance of the 64-bit mixing chain used to expand a `u64` seed.
#[verifier::opaque]
pub open spec fn seed_mix_step(s: u64) -> u64 {
    s.wrapping_mul(SEED_MIX_MULTIPLIER).wrapping_add(SEED_MIX_INCREMENT)
}

/// The 32-bit output drawn from one state of the mixing chain.
#[verifier::opaque]
pub open spec fn seed_mix_output(s: u64) -> u32 {
    let xorshifted = (((s >> 18) ^ s) >> 27) as u32;
    let rot = (s >> 59) as u32;
    spec_rotr32(xorshifted, rot)
}

/// The `k`-th state of the mixing chain, counting the seed itself as 0.
pub open spec fn seed_mix_iter(seed: u64, k: nat) -> u64
    decreases k,
{
    if k == 0 {
        seed
    } else {
        seed_mix_step(seed_mix_iter(seed, (k - 1) as nat))
    }
}

/// The `k`-th 32-bit word of the expanded seed, counting from 0: the chain
/// is advanced once before each output.
pub open spec fn seed_word(seed: u64, k: nat) -> u32 {
    seed_mix_output(seed_mix_iter(seed, k + 1))
}

/// Two 32-bit seed words joined little-endian into one 64-bit word.
pub open spec fn join_words(lo: u32, hi: u32) -> u64 {
    (lo as u64) | ((hi as u64) << 32)
}

/// The generator that a bare `u64` seed expands to: eight 32-bit words are
/// drawn from the mixing chain and read little-endian as four 64-bit seed
/// words.
pub open spec fn pcg_seeded(seed: u64) -> Pcg64 {
    pcg_from_seed_words(
        join_words(seed_word(seed, 0), seed_word(seed, 1)),
        join_words(seed_word(seed, 2), seed_word(seed, 3)),
        join_words(seed_word(seed, 4), seed_word(seed, 5)),
        join_words(seed_word(seed, 6), seed_word(seed, 7)),
    )
}

/// The generator that is derived from a running master generator: the next
/// four values of the master become the four seed words.
pub open spec fn pcg_derived(master: Pcg64) -> Pcg64 {
    pcg_from_seed_words(
        pcg_value(master, 0),
        pcg_value(master, 1),
        pcg_value(master, 2),
        pcg_value(master, 3),
    )
}

impl Pcg64 {
    /// Advances the state once and permutes it into the next output value.
    pub fn next_u64(&mut self) -> (r: u64)
        ensures
            *final(self) == pcg_step(*old(self)),
            r == pcg_output(final(self).state),
    {
        self.state = self.state.wrapping_mul(PCG_MULTIPLIER).wrapping_add(self.increment);
        let st: u128 = self.state;
        proof {
            reveal(pcg_step);
            reveal(pcg_output);
            assert(st >> 122 < 64) by (bit_vector);
        }
        let rot: u64 = (st >> 122) as u64;
        let hi: u64 = #[verifier::truncate] ((st >> 64) as u64);
        let lo: u64 = #[verifier::truncate] (st as u64);
        let xsl: u64 = hi ^ lo;
        if rot == 0 {
            xsl
        } else {
            (xsl >> rot) | (xsl << (64 - rot))
        }
    }

    /// Builds a generator from a 128-bit state seed and an increment.
    fn from_state_incr(state_seed: u128, increment: u128) -> (r: Pcg64)
        ensures
            r == pcg_init(state_seed, increment),
    {
        proof {
            reveal(pcg_init);
            reveal(pcg_step);
        }
        let mut g = Pcg64 { state: state_seed.wrapping_add(increment), increment };
        g.state = g.state.wrapping_mul(PCG_MULTIPLIER).wrapping_add(g.increment);
        g
    }

    /// Expands a bare `u64` seed into a full 256-bit seed and builds the
    /// generator from it.
    pub fn seed_from_u64(seed: u64) -> (r: Pcg64)
        ensures
            r == pcg_seeded(seed),
    {
        let mut s: u64 = seed;
        let x0 = seed_mix_next(&mut s);
        let x1 = seed_mix_next(&mut s);
        let x2 = seed_mix_next(&mut s);
        let x3 = seed_mix_next(&mut s);
        let x4 = seed_mix_next(&mut s);
        let x5 = seed_mix_next(&mut s);
        let x6 = seed_mix_next(&mut s);
        let x7 = seed_mix_next(&mut s);
        proof {
            lemma_seed_mix_iter_unfold(seed, 8);
        }
        let w0: u64 = join_words_exec(x0, x1);
        let w1: u64 = join_words_exec(x2, x3);
        let w2: u64 = join_words_exec(x4, x5);
        let w3: u64 = join_words_exec(x6, x7);
        let state_seed: u128 = (w0 as u128) | ((w1 as u128) << 64);
        let incr: u128 = ((w2 as u128) | ((w3 as u128) << 64)) | 1;
        Self::from_state_incr(state_seed, incr)
    }

    /// Derives an independent generator by drawing the next four values of
    /// `master` as the four seed words.
    pub fn from_rng(master: &mut Pcg64) -> (r: Pcg64)
        ensures
            *final(master) == pcg_advance(*old(master), 4),
            r == pcg_derived(*old(master)),
    {
        let w0 = master.next_u64();
        let w1 = master.next_u64();
        let w2 = master.next_u64();
        let w3 = master.next_u64();
        proof {
            lemma_pcg_advance_unfold(*old(master), 4);
        }
        let state_seed: u128 = (w0 as u128) | ((w1 as u128) << 64);
        let incr: u128 = ((w2 as u128) | ((w3 as u128) << 64)) | 1;
        Self::from_state_incr(state_seed, incr)
    }
}

/// One advance and one output of the 64-bit mixing chain.
fn seed_mix_next(s: &mut u64) -> (x: u32)
    ensures
        *final(s) == seed_mix_step(*old(s)),
        x == seed_mix_output(*final(s)),
{
    *s = s.wrapping_mul(SEED_MIX_MULTIPLIER).wrapping_add(SEED_MIX_INCREMENT);
    let t: u64 = *s;
    proof {
        reveal(seed_mix_step);
        reveal(seed_mix_output);
        assert(t >> 59 < 32) by (bit_vector);
    }
    let xorshifted: u32 = #[verifier::truncate] ((((t >> 18) ^ t) >> 27) as u32);
    let rot: u32 = (t >> 59) as u32;
    if rot == 0 {
        xorshifted
    } else {
        (xorshifted >> rot) | (xorshifted << (32 - rot))
    }
}

/// Joins two 32-bit words little-endian.
fn join_words_exec(lo: u32, hi: u32) -> (r: u64)
    ensures
        r == join_words(lo, hi),
{
    (lo as u64) | ((hi as u64) << 32)
}

/// Unrolls `pcg_advance` step by step up to `n`, so that the state after a
/// fixed number of `next_u64` calls can be named.
pub proof fn lemma_pcg_advance_unfold(g: Pcg64, n: nat)
    ensures
        pcg_advance(g, 0) == g,
        forall|k: nat|
            k < n ==> pcg_advance(g, (k + 1) as nat) == pcg_step(#[trigger] pcg_advance(g, k)),
{
    assert forall|k: nat|
        k < n implies pcg_advance(g, (k + 1) as nat) == pcg_step(#[trigger] pcg_advance(g, k)) by {
        assert(pcg_advance(g, (k + 1) as nat) == pcg_step(pcg_advance(g, k)));
    }
}

/// Unrolls `seed_mix_iter` step by step up to `n`, so that each state of
/// the mixing chain can be named.
pub proof fn lemma_seed_mix_iter_unfold(seed: u64, n: nat)
    ensures
        seed_mix_iter(seed, 0) == seed,
        forall|k: nat|
            k < n ==> seed_mix_iter(seed, (k + 1) as nat) == seed_mix_step(
                #[trigger] seed_mix_iter(seed, k),
            ),
{
    assert forall|k: nat|
        k < n implies seed_mix_iter(seed, (k + 1) as nat) == seed_mix_step(
        #[trigger] seed_mix_iter(seed, k),
    ) by {
        assert(seed_mix_iter(seed, (k + 1) as nat) == seed_mix_step(seed_mix_iter(seed, k)));
    }
}

} // verus!
