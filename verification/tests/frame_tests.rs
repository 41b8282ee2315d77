//! The per-frame driver: ticks that advance everything together, and the
//! full-versus-incremental mesh refresh.

use random_walk_core::average::AverageDistance;
use random_walk_core::ensemble::{create_walkers, StepPolicy};
use random_walk_core::frame::{refresh_mesh, run_tick};
use random_walk_core::mesh::{calc_mesh, CellRect, Rgb, Viewport};
use random_walk_core::tracker::{MeshChangeTracker, PerformanceHint};

fn unit_view() -> Viewport {
    Viewport { origin_x: 0, origin_y: 0, scale_x: 65536, scale_y: 65536 }
}

const BASE: Rgb = Rgb { r: 80, g: 0, b: 161 };
const TARGET: Rgb = Rgb { r: 254, g: 42, b: 42 };
const HIGHLIGHT: Rgb = Rgb { r: 139, g: 0, b: 0 };

#[test]
fn a_tick_advances_walkers_and_average_together() {
    let mut walkers = create_walkers(42, 2, 16);
    let mut average = AverageDistance::default();
    let mut tracker = MeshChangeTracker::new();
    tracker.redraw_finished(0);
    run_tick(
        &mut walkers,
        &mut average,
        &mut tracker,
        3,
        StepPolicy::Unbiased,
        0,
        1000,
        PerformanceHint::PrioritizeOptics,
    );
    assert_eq!(walkers[0].history.len(), 3);
    assert_eq!(walkers[1].history.len(), 3);
    assert_eq!(average.average_distance_plot_data.len(), 3);
    assert!(tracker.changed);
}

#[test]
fn a_tick_without_steps_changes_nothing() {
    let mut walkers = create_walkers(42, 2, 16);
    let mut average = AverageDistance::default();
    let mut tracker = MeshChangeTracker::new();
    tracker.redraw_finished(0);
    run_tick(
        &mut walkers,
        &mut average,
        &mut tracker,
        0,
        StepPolicy::Unbiased,
        0,
        1000,
        PerformanceHint::PrioritizeOptics,
    );
    assert_eq!(walkers[0].history.len(), 0);
    assert_eq!(average.average_distance_plot_data.len(), 0);
    assert!(!tracker.changed);
}

#[test]
fn a_tick_past_the_limit_is_a_pause() {
    let mut walkers = create_walkers(42, 2, 16);
    let mut average = AverageDistance::default();
    let mut tracker = MeshChangeTracker::new();
    run_tick(
        &mut walkers,
        &mut average,
        &mut tracker,
        5,
        StepPolicy::Unbiased,
        0,
        5,
        PerformanceHint::PrioritizePerformance,
    );
    assert_eq!(walkers[0].history.len(), 5);
    run_tick(
        &mut walkers,
        &mut average,
        &mut tracker,
        5,
        StepPolicy::Unbiased,
        0,
        5,
        PerformanceHint::PrioritizePerformance,
    );
    assert_eq!(walkers[0].history.len(), 5);
    assert_eq!(average.average_distance_plot_data.len(), 5);
}

#[test]
fn refresh_builds_once_then_patches_incrementally() {
    let view = unit_view();
    let mut walkers = create_walkers(7, 1, 16);
    let mut average = AverageDistance::default();
    let mut tracker = MeshChangeTracker::new();
    let mut mesh: Option<Vec<CellRect>> = None;
    let hint = PerformanceHint::PrioritizePerformance;
    let speed_milli = 0;

    for _ in 0..6 {
        run_tick(
            &mut walkers,
            &mut average,
            &mut tracker,
            2,
            StepPolicy::Unbiased,
            0,
            1000,
            hint,
        );
        refresh_mesh(
            &mut mesh,
            &mut tracker,
            &walkers[0],
            &view,
            BASE,
            TARGET,
            HIGHLIGHT,
            speed_milli,
            hint,
            1000,
        );
        let rebuilt = calc_mesh(&walkers[0], &view, BASE, TARGET, HIGHLIGHT);
        assert_eq!(mesh.as_ref().unwrap(), &rebuilt);
    }
    // under the throughput hint with eleven steps pending, a redraw fires
    assert!(tracker.get_current_step() > 0);
}

#[test]
fn refresh_with_a_clean_tracker_and_no_new_steps_leaves_the_mesh() {
    let view = unit_view();
    let walkers = create_walkers(7, 1, 16);
    let mut tracker = MeshChangeTracker::new();
    let mut mesh: Option<Vec<CellRect>> = None;
    refresh_mesh(
        &mut mesh,
        &mut tracker,
        &walkers[0],
        &view,
        BASE,
        TARGET,
        HIGHLIGHT,
        0,
        PerformanceHint::PrioritizePerformance,
        1000,
    );
    let first = mesh.clone();
    refresh_mesh(
        &mut mesh,
        &mut tracker,
        &walkers[0],
        &view,
        BASE,
        TARGET,
        HIGHLIGHT,
        0,
        PerformanceHint::PrioritizePerformance,
        1000,
    );
    assert_eq!(mesh, first);
    assert!(!tracker.changed);
}
