//! Light transport along paths, verified.
//!
//! The library holds the three parts of a path tracer that carry its logic: the
//! interaction model (a hit point with its local geometry, and the rays that leave it),
//! the samplers (reproducible streams of sample values for every pixel) and the path
//! integrator (the walk of a path from bounce to bounce, as a state machine).
//!
//! Every number is a scalar in signed 16.16 fixed point, so that every result is exact
//! and the same on every machine. Arithmetic stops at the ends of the range; a scalar at
//! an end of the range counts as infinite.
//!
//! What a renderer brings along stays outside: the scene is asked for its nearest hit,
//! its lights and its scattering functions by whoever drives a path, and the answers are
//! handed to the integrator as events.

pub mod camera;
pub mod fixed;
pub mod geometry;
pub mod integrators;
pub mod interaction;
pub mod lightdistrib;
pub mod medium;
pub mod primitive;
pub mod reflection;
pub mod rng;
pub mod sampler;
pub mod samplers;
pub mod scene;
pub mod spectrum;
pub mod transform;
