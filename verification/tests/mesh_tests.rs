//! The mesh builder: viewport mapping, gradient colors, the empty-history
//! boundary, and the equivalence of full and incremental builds.

use random_walk_core::mesh::{calc_mesh, update_mesh, CellRect, Rgb, Viewport};
use random_walk_core::rng::Pcg64;
use random_walk_core::walker::{History, Position, RandomWalker};

fn unit_view() -> Viewport {
    Viewport { origin_x: 0, origin_y: 0, scale_x: 65536, scale_y: 65536 }
}

const BASE: Rgb = Rgb { r: 80, g: 0, b: 161 };
const TARGET: Rgb = Rgb { r: 254, g: 42, b: 42 };
const HIGHLIGHT: Rgb = Rgb { r: 139, g: 0, b: 0 };

fn walker_with_history(visited: &[(i32, i32)], live: (i32, i32)) -> RandomWalker {
    let mut history = History::new();
    for &(x, y) in visited {
        history.push(Position { x, y });
    }
    RandomWalker {
        ort: Position { x: live.0, y: live.1 },
        history,
        rng: Pcg64::seed_from_u64(0),
    }
}

#[test]
fn empty_history_yields_only_the_highlight() {
    let w = walker_with_history(&[], (2, -3));
    let mesh = calc_mesh(&w, &unit_view(), BASE, TARGET, HIGHLIGHT);
    assert_eq!(mesh.len(), 1);
    assert_eq!(
        mesh[0],
        CellRect {
            min_x: 2 * 65536,
            min_y: -3 * 65536,
            max_x: 3 * 65536,
            max_y: -2 * 65536,
            color: HIGHLIGHT,
        }
    );
}

#[test]
fn gradient_interpolates_per_cell() {
    let w = walker_with_history(&[(0, 0), (1, 0)], (1, 1));
    let mesh = calc_mesh(&w, &unit_view(), BASE, TARGET, HIGHLIGHT);
    assert_eq!(mesh.len(), 3);
    assert_eq!(mesh[0].color, BASE);
    // progress 1/2: each channel moves half way, rounded toward the base
    assert_eq!(mesh[1].color, Rgb { r: 167, g: 21, b: 102 });
    assert_eq!(mesh[2].color, HIGHLIGHT);
}

#[test]
fn viewport_places_and_scales_cells() {
    let view = Viewport { origin_x: 100 * 65536, origin_y: 50 * 65536, scale_x: 655, scale_y: 327 };
    let w = walker_with_history(&[(3, -2)], (0, 0));
    let mesh = calc_mesh(&w, &view, BASE, TARGET, HIGHLIGHT);
    assert_eq!(mesh[0].min_x, 100 * 65536 + 3 * 655);
    assert_eq!(mesh[0].max_x, 100 * 65536 + 4 * 655);
    assert_eq!(mesh[0].min_y, 50 * 65536 - 2 * 327);
    assert_eq!(mesh[0].max_y, 50 * 65536 - 327);
}

#[test]
fn incremental_update_equals_full_build() {
    let view = unit_view();
    let mut w = RandomWalker::new(5);
    for _ in 0..10 {
        w.random_step();
    }
    let mut mesh = calc_mesh(&w, &view, BASE, TARGET, HIGHLIGHT);
    for _ in 0..15 {
        w.random_step();
    }
    update_mesh(&mut mesh, 10, &w, &view, BASE, TARGET, HIGHLIGHT);
    let rebuilt = calc_mesh(&w, &view, BASE, TARGET, HIGHLIGHT);
    assert_eq!(mesh, rebuilt);
}

#[test]
fn incremental_update_chain_equals_full_build() {
    let view = unit_view();
    let mut w = RandomWalker::new(31);
    w.random_step();
    let mut mesh = calc_mesh(&w, &view, BASE, TARGET, HIGHLIGHT);
    for round in 0..5 {
        let old_total = w.history.len();
        for _ in 0..(round + 1) {
            w.random_step();
        }
        update_mesh(&mut mesh, old_total, &w, &view, BASE, TARGET, HIGHLIGHT);
        assert_eq!(mesh, calc_mesh(&w, &view, BASE, TARGET, HIGHLIGHT));
    }
}
