//! Ensemble creation, uniform stepping, policies and the step limit.

use rand::{RngCore, SeedableRng};
use random_walk_core::ensemble::{advance_walkers, create_walkers, StepPolicy};
use random_walk_core::rng::Pcg64;
use random_walk_core::walker::{History, Position, RandomWalker, DRAW_HALF};

#[test]
fn sub_seeding_matches_reference_derivation() {
    let seed = 2598u64;
    let walkers = create_walkers(seed, 4, 16);
    assert_eq!(walkers.len(), 4);
    let mut reference_master = rand_pcg::Pcg64::seed_from_u64(seed);
    for w in walkers.iter() {
        let reference = rand_pcg::Pcg64::from_rng(&mut reference_master).unwrap();
        let mut ours = w.rng;
        let mut theirs = reference;
        for _ in 0..10 {
            assert_eq!(ours.next_u64(), theirs.next_u64());
        }
        assert!(w.history.is_empty());
        assert_eq!(w.ort, Position { x: 0, y: 0 });
    }
}

#[test]
fn ensemble_advances_uniformly() {
    let mut walkers = create_walkers(9, 5, 16);
    advance_walkers(&mut walkers, 12, StepPolicy::Unbiased, 0, 1000);
    for w in walkers.iter() {
        assert_eq!(w.history.len(), 12);
    }
    // two walkers with different sub-seeds diverge
    assert_ne!(walkers[0].history.vec, walkers[1].history.vec);
}

#[test]
fn step_limit_pauses_whole_batches() {
    let mut walkers = create_walkers(9, 2, 16);
    advance_walkers(&mut walkers, 10, StepPolicy::Unbiased, 0, 8);
    // the batch began below the limit and ran to completion
    assert_eq!(walkers[0].history.len(), 10);
    advance_walkers(&mut walkers, 10, StepPolicy::Unbiased, 0, 8);
    // at or past the limit nothing moves
    assert_eq!(walkers[0].history.len(), 10);
    assert_eq!(walkers[1].history.len(), 10);
}

#[test]
fn chunked_advance_equals_one_advance() {
    let mut a = RandomWalker::new(64);
    let mut b = RandomWalker::new(64);
    a.advance(10, StepPolicy::BiasedToward, 1 << 49);
    b.advance(4, StepPolicy::BiasedToward, 1 << 49);
    b.advance(6, StepPolicy::BiasedToward, 1 << 49);
    assert_eq!(a.ort, b.ort);
    assert_eq!(a.history.vec, b.history.vec);
    assert_eq!(a.rng, b.rng);
}

#[test]
fn full_bias_away_never_moves_toward_the_origin() {
    let mut w = RandomWalker {
        ort: Position { x: 3, y: -4 },
        history: History::new(),
        rng: Pcg64::seed_from_u64(11),
    };
    for _ in 0..100 {
        let before = (w.ort.x.abs(), w.ort.y.abs());
        w.random_step_biased_away(DRAW_HALF);
        assert!(w.ort.x.abs() >= before.0 && w.ort.y.abs() >= before.1);
    }
}

#[test]
fn full_bias_toward_keeps_the_walker_near_the_origin() {
    let mut w = RandomWalker::new(12);
    for _ in 0..100 {
        w.random_step_biased_to_origin(DRAW_HALF);
        assert!(w.ort.x.abs() <= 1 && w.ort.y.abs() <= 1);
    }
}

#[test]
fn custom_policy_makes_knight_moves() {
    let mut w = RandomWalker::new(13);
    for _ in 0..50 {
        let before = w.ort;
        w.your_step_function(0);
        let dx = (w.ort.x - before.x).abs();
        let dy = (w.ort.y - before.y).abs();
        assert!((dx == 1 && dy == 2) || (dx == 2 && dy == 1));
    }
}
