//! The generator model against the reference implementation, and the
//! determinism of seeded walks.

use rand::{Rng, RngCore, SeedableRng};
use random_walk_core::rng::Pcg64;
use random_walk_core::walker::RandomWalker;

#[test]
fn seeded_generator_matches_reference() {
    for seed in [0u64, 1, 42, 2598, 123_456_789, u64::MAX] {
        let mut ours = Pcg64::seed_from_u64(seed);
        let mut reference = rand_pcg::Pcg64::seed_from_u64(seed);
        for _ in 0..100 {
            assert_eq!(ours.next_u64(), reference.next_u64());
        }
    }
}

#[test]
fn derived_generator_matches_reference() {
    let mut master = Pcg64::seed_from_u64(7);
    let mut reference_master = rand_pcg::Pcg64::seed_from_u64(7);
    for _ in 0..5 {
        let mut derived = Pcg64::from_rng(&mut master);
        let mut reference_derived = rand_pcg::Pcg64::from_rng(&mut reference_master).unwrap();
        for _ in 0..20 {
            assert_eq!(derived.next_u64(), reference_derived.next_u64());
        }
    }
}

#[test]
fn draws_match_reference_doubles() {
    let mut walker = RandomWalker::new(99);
    let mut reference = rand_pcg::Pcg64::seed_from_u64(99);
    for _ in 0..50 {
        let draw = walker.get_random_number();
        let expected: f64 = reference.gen();
        assert_eq!(draw as f64 / (1u64 << 53) as f64, expected);
        assert!(draw < (1u64 << 53));
    }
}

#[test]
fn same_seed_same_walk() {
    let mut a = RandomWalker::new(42);
    let mut b = RandomWalker::new(42);
    for _ in 0..50 {
        a.random_step();
        b.random_step();
    }
    assert_eq!(a.ort, b.ort);
    assert_eq!(a.history.vec, b.history.vec);
    assert_eq!(a.history.distance_from_origin, b.history.distance_from_origin);
    assert_eq!(a.rng, b.rng);
}

#[test]
fn same_seed_same_biased_walk() {
    let bias = 1u64 << 50;
    let mut a = RandomWalker::new(271);
    let mut b = RandomWalker::new(271);
    for _ in 0..30 {
        a.random_step_biased_away(bias);
        b.random_step_biased_away(bias);
    }
    assert_eq!(a.ort, b.ort);
    assert_eq!(a.history.vec, b.history.vec);
}

#[test]
fn seed42_unbiased_walk_matches_float_reference() {
    let mut walker = RandomWalker::new(42);
    for _ in 0..4 {
        walker.random_step();
    }
    let mut reference = rand_pcg::Pcg64::seed_from_u64(42);
    let mut x = 0i32;
    let mut y = 0i32;
    let mut visited: Vec<(i32, i32)> = Vec::new();
    for _ in 0..4 {
        let p: f64 = reference.gen();
        visited.push((x, y));
        if p < 0.25 {
            x += 1;
        } else if p < 0.5 {
            x -= 1;
        } else if p < 0.75 {
            y += 1;
        } else {
            y -= 1;
        }
    }
    let got: Vec<(i32, i32)> = walker.history.vec.iter().map(|p| (p.x, p.y)).collect();
    assert_eq!(got, visited);
    assert_eq!((walker.ort.x, walker.ort.y), (x, y));
}

#[test]
fn seed42_unbiased_walk_pinned_positions() {
    let mut walker = RandomWalker::new(42);
    for _ in 0..4 {
        walker.random_step();
    }
    let got: Vec<(i32, i32)> = walker.history.vec.iter().map(|p| (p.x, p.y)).collect();
    assert_eq!(got, vec![(0, 0), (1, 0), (2, 0), (2, -1)]);
    assert_eq!((walker.ort.x, walker.ort.y), (2, 0));
}
