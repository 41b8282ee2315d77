//! The change tracker's decision rule and bookkeeping.

use random_walk_core::tracker::{MeshChangeTracker, PerformanceHint};

#[test]
fn fresh_tracker_wants_a_full_build() {
    let t = MeshChangeTracker::new();
    assert!(t.check_if_needs_redraw(0, PerformanceHint::PrioritizePerformance));
    assert!(t.check_if_needs_redraw(0, PerformanceHint::PrioritizeOptics));
}

#[test]
fn throughput_threshold_at_speed_zero_is_ten() {
    let mut t = MeshChangeTracker::new();
    t.redraw_finished(0);
    t.new_steps(10);
    assert!(!t.check_if_needs_redraw(0, PerformanceHint::PrioritizePerformance));
    t.new_steps(11);
    assert!(t.check_if_needs_redraw(0, PerformanceHint::PrioritizePerformance));
}

#[test]
fn throughput_threshold_at_speed_hundred_is_1800() {
    let speed_milli = 100_000; // a configured speed of 100
    let mut t = MeshChangeTracker::new();
    t.redraw_finished(0);
    t.new_steps(1800);
    assert!(!t.check_if_needs_redraw(speed_milli, PerformanceHint::PrioritizePerformance));
    t.new_steps(1801);
    assert!(t.check_if_needs_redraw(speed_milli, PerformanceHint::PrioritizePerformance));
}

#[test]
fn optics_redraws_on_any_change() {
    let mut t = MeshChangeTracker::new();
    t.redraw_finished(5);
    assert!(!t.check_if_needs_redraw(1_000_000, PerformanceHint::PrioritizeOptics));
    t.new_steps(6);
    assert!(t.check_if_needs_redraw(1_000_000, PerformanceHint::PrioritizeOptics));
}

#[test]
fn redraw_finished_clears_everything() {
    let mut t = MeshChangeTracker::new();
    t.new_steps(42);
    t.redraw_finished(42);
    assert!(!t.changed);
    assert_eq!(t.get_current_step(), 42);
    assert_eq!(t.accumulated_change, 0);
}

#[test]
fn reset_keeps_the_accumulated_count() {
    let mut t = MeshChangeTracker::new();
    t.redraw_finished(10);
    t.new_steps(17);
    t.reset();
    assert!(t.changed);
    assert_eq!(t.get_current_step(), 0);
    assert_eq!(t.accumulated_change, 7);
}

#[test]
fn new_steps_accumulates_differences() {
    let mut t = MeshChangeTracker::new();
    t.redraw_finished(100);
    t.new_steps(130);
    t.new_steps(150);
    assert_eq!(t.get_current_step(), 150);
    assert_eq!(t.accumulated_change, 50);
    assert!(!t.changed);
}

#[test]
fn request_redraw_sets_only_the_flag() {
    let mut t = MeshChangeTracker::new();
    t.redraw_finished(9);
    t.request_redraw();
    assert!(t.changed);
    assert_eq!(t.get_current_step(), 9);
}
