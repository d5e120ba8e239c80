//! The integrators and what belongs to them.

pub mod mlt;
pub mod path;
