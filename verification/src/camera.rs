//! What a camera needs from a sampler to make a ray.

use crate::fixed::Fixed;
use crate::geometry::Point2;
use vstd::prelude::*;

verus! {

/// The sample values that a camera needs to make a ray.
#[derive(Clone, Copy, Debug, PartialEq, Eq, Structural)]
pub struct CameraSample {
    /// The point on the film.
    pub p_film: Point2,
    /// The point on the lens.
    pub p_lens: Point2,
    /// The time of the ray.
    pub time: Fixed,
}

} // verus!
