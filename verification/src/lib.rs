//! Core of a 2D lattice random-walk simulator.
//!
//! A walker holds an integer position, a growing history of visited
//! positions with precomputed distances from the origin, and a private
//! pseudo-random generator, so that a walk is a pure function of its seed.
//! Around the walker stand a running-average aggregator over an ensemble of
//! walkers, a change tracker that decides between full and incremental
//! rebuilds of the on-screen geometry, and a mesh builder that turns a
//! history into colored rectangles for a viewport.
//!
//! Everything is kept in integer arithmetic: random draws are the 53
//! uniform bits that back a double-precision draw in `[0, 1)`, and
//! distances, averages and viewport coordinates are fixed-point values
//! with 16 fractional bits, so that every result is exact and the
//! rendering layer only converts for display.

pub mod average;
pub mod ensemble;
pub mod frame;
pub mod math;
pub mod mesh;
pub mod rng;
pub mod tracker;
pub mod walker;
