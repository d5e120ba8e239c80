//! What the light transport needs to know of a scene.

use crate::primitive::Primitive;
use vstd::prelude::*;

verus! {

/// What the light transport needs to know of a scene: its table of primitives and the
/// number of its lights.
#[derive(Debug, PartialEq, Eq)]
pub struct Scene {
    pub primitives: Vec<Primitive>,
    pub n_lights: usize,
}

} // verus!
