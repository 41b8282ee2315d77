//! The history invariant: aligned lengths and exact fixed-point distances.

use random_walk_core::walker::{History, Position, RandomWalker};

const FP: f64 = 65536.0;

#[test]
fn push_records_position_and_distance() {
    let mut h = History::new();
    assert!(h.is_empty());
    h.push(Position { x: 3, y: 4 });
    assert_eq!(h.len(), 1);
    assert_eq!(h.vec[0], Position { x: 3, y: 4 });
    assert_eq!(h.distance_from_origin[0], 5 * 65536);
}

#[test]
fn diagonal_distance_rounds_down() {
    let mut h = History::with_capacity(4);
    h.push(Position { x: 1, y: 1 });
    h.push(Position { x: -1, y: -1 });
    // sqrt(2) * 65536 = 92681.90...
    assert_eq!(h.distance_from_origin[0], 92681);
    assert_eq!(h.distance_from_origin[1], 92681);
}

#[test]
fn origin_distance_is_zero() {
    let mut h = History::default();
    h.push(Position { x: 0, y: 0 });
    assert_eq!(h.distance_from_origin[0], 0);
}

#[test]
fn history_invariant_after_stepping() {
    let mut w = RandomWalker::new(1234);
    for _ in 0..200 {
        w.random_step();
    }
    assert_eq!(w.history.vec.len(), w.history.distance_from_origin.len());
    assert_eq!(w.history.len(), 200);
    for (p, d) in w.history.vec.iter().zip(w.history.distance_from_origin.iter()) {
        let exact = ((p.x as f64).powi(2) + (p.y as f64).powi(2)).sqrt();
        let stored = *d as f64 / FP;
        assert!(stored <= exact && exact - stored < 1.0 / FP * 1.01);
    }
}

#[test]
fn unbiased_steps_are_unit_moves() {
    let mut w = RandomWalker::new(77);
    for _ in 0..100 {
        let before = w.ort;
        w.random_step();
        let after = w.ort;
        let dx = (after.x - before.x).abs();
        let dy = (after.y - before.y).abs();
        assert_eq!(dx + dy, 1);
        assert_eq!(*w.history.vec.last().unwrap(), before);
    }
}

#[test]
fn decimated_distances_take_every_hundredth() {
    let mut w = RandomWalker::new(5);
    for _ in 0..250 {
        w.random_step();
    }
    let dec = w.history.decimated_distances();
    assert_eq!(dec.len(), 3);
    assert_eq!(dec[0], w.history.distance_from_origin[0]);
    assert_eq!(dec[1], w.history.distance_from_origin[100]);
    assert_eq!(dec[2], w.history.distance_from_origin[200]);
}
