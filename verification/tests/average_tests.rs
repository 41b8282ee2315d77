//! The average aggregator: exact means, chunking independence, and the
//! decimated and analytical series.

use random_walk_core::average::{analytical_reference, AverageDistance};
use random_walk_core::ensemble::{advance_walkers, create_walkers, StepPolicy};
use random_walk_core::rng::Pcg64;
use random_walk_core::walker::{History, Position, RandomWalker};

fn walker_with_history(seed: u64, visited: &[(i32, i32)]) -> RandomWalker {
    let mut history = History::new();
    for &(x, y) in visited {
        history.push(Position { x, y });
    }
    RandomWalker { ort: Position { x: 0, y: 0 }, history, rng: Pcg64::seed_from_u64(seed) }
}

#[test]
fn two_unit_distances_average_to_one() {
    let w1 = walker_with_history(1, &[(1, 0)]);
    let w2 = walker_with_history(2, &[(0, 1)]);
    let mut avg = AverageDistance::default();
    avg.update_on_step_of_walkers(1, &[w1, w2]);
    assert_eq!(avg.average_distance_plot_data, vec![65536]);
}

#[test]
fn mean_rounds_down() {
    let w1 = walker_with_history(1, &[(3, 4)]);
    let w2 = walker_with_history(2, &[(0, 0)]);
    let mut avg = AverageDistance::default();
    avg.update_on_step_of_walkers(1, &[w1, w2]);
    // (5.0 + 0.0) / 2 = 2.5
    assert_eq!(avg.average_distance_plot_data, vec![5 * 65536 / 2]);
}

#[test]
fn chunked_extension_equals_one_extension() {
    let n1 = 4usize;
    let n2 = 6usize;

    let mut chunked_walkers = create_walkers(2598, 3, 64);
    let mut chunked = AverageDistance::default();
    advance_walkers(&mut chunked_walkers, n1, StepPolicy::Unbiased, 0, usize::MAX);
    chunked.update_on_step_of_walkers(n1, &chunked_walkers);
    advance_walkers(&mut chunked_walkers, n2, StepPolicy::Unbiased, 0, usize::MAX);
    chunked.update_on_step_of_walkers(n2, &chunked_walkers);

    let mut whole_walkers = create_walkers(2598, 3, 64);
    let mut whole = AverageDistance::default();
    advance_walkers(&mut whole_walkers, n1 + n2, StepPolicy::Unbiased, 0, usize::MAX);
    whole.update_on_step_of_walkers(n1 + n2, &whole_walkers);

    assert_eq!(chunked.average_distance_plot_data, whole.average_distance_plot_data);
}

#[test]
fn push_averages_appends_in_order() {
    let mut avg = AverageDistance::default();
    avg.push_averages(&[10, 20]);
    avg.push_averages(&[30]);
    assert_eq!(avg.average_distance_plot_data, vec![10, 20, 30]);
}

#[test]
fn cloned_average_copies_the_series() {
    let mut avg = AverageDistance::default();
    avg.push_averages(&[7, 8, 9]);
    assert_eq!(avg.cloned_average(), vec![7, 8, 9]);
}

#[test]
fn approximation_takes_every_hundredth() {
    let mut avg = AverageDistance::default();
    let samples: Vec<u64> = (0..250).collect();
    avg.push_averages(&samples);
    assert_eq!(avg.get_approximation(), vec![0, 100, 200]);

    let empty = AverageDistance::default();
    assert_eq!(empty.get_approximation(), Vec::<u64>::new());
}

#[test]
fn analytical_curve_samples() {
    let curve = analytical_reference(1000);
    assert_eq!(curve.len(), 1000);
    assert_eq!(curve[0], (0, 0));
    // x = 4 steps: sqrt(4) * sqrt(pi)/2 in 16-bit fixed point
    assert_eq!(curve[4], (4 * 65536, 2 * 58080));
    let expected = |x: f64| x.sqrt() * std::f64::consts::PI.sqrt() / 2.0;
    for &(x, y) in curve.iter() {
        let xf = x as f64 / 65536.0;
        let yf = y as f64 / 65536.0;
        assert!((yf - expected(xf)).abs() < 1e-3);
    }
}
