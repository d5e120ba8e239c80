//! The strategies by which the lights of a scene are weighted when one of them is sampled.

use crate::scene::Scene;
use vstd::prelude::*;

verus! {

/// How the lights of a scene are weighted when one of them is picked at a point.
#[derive(Clone, Copy, Debug, PartialEq, Eq, Structural)]
pub enum LightDistribution {
    /// Every light is as likely as any other.
    Uniform,
    /// A light is as likely as it is powerful.
    Power,
    /// A light is as likely as it matters to the part of space round the point.
    Spatial,
}

/// The light distribution that a strategy name stands for in a scene with `n_lights`
/// lights. A scene with a single light needs no weighting, and a name that is not known
/// falls back on equal weights.
pub open spec fn distribution_for(name: Seq<char>, n_lights: nat) -> LightDistribution {
    if name == "uniform"@ || n_lights == 1 {
        LightDistribution::Uniform
    } else if name == "power"@ {
        LightDistribution::Power
    } else if name == "spatial"@ {
        LightDistribution::Spatial
    } else {
        LightDistribution::Uniform
    }
}

/// Builds the light distribution that a strategy name stands for.
pub fn create_light_sample_distribution(name: &String, scene: &Scene) -> (r: Option<
    LightDistribution,
>)
    ensures
        r == Some(distribution_for(name@, scene.n_lights as nat)),
{
    let uniform: String = "uniform".to_owned();
    let power: String = "power".to_owned();
    let spatial: String = "spatial".to_owned();
    if *name == uniform || scene.n_lights == 1 {
        Some(LightDistribution::Uniform)
    } else if *name == power {
        Some(LightDistribution::Power)
    } else if *name == spatial {
        Some(LightDistribution::Spatial)
    } else {
        Some(LightDistribution::Uniform)
    }
}

} // verus!
