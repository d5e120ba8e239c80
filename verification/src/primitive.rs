//! The table of primitives of a scene: what each of them emits and how it scatters.

use crate::fixed::Fixed;
use crate::geometry::{vec3_dot, Normal3, Vector3};
use crate::reflection::{Bsdf, TransportMode};
use crate::spectrum::Spectrum;
use vstd::prelude::*;

verus! {

/// A primitive of the scene, named by its place in the scene's table of primitives.
#[derive(Clone, Copy, Debug, PartialEq, Eq, Structural)]
pub struct PrimitiveId {
    pub index: usize,
}

/// A subsurface scattering function, named by its place in the scene's table of them.
#[derive(Clone, Copy, Debug, PartialEq, Eq, Structural)]
pub struct BssrdfId {
    pub index: usize,
}

/// What a surface interaction needs to know of the shape that was hit.
#[derive(Clone, Copy, Debug, PartialEq, Eq, Structural)]
pub struct Shape {
    pub reverse_orientation: bool,
    pub transform_swaps_handedness: bool,
}

impl Shape {
    /// Whether the shape's normals are to be reversed.
    pub fn get_reverse_orientation(&self) -> (r: bool)
        ensures
            r == self.reverse_orientation,
    {
        self.reverse_orientation
    }

    /// Whether the shape's transformation turns a right-handed frame into a left-handed one.
    pub fn get_transform_swaps_handedness(&self) -> (r: bool)
        ensures
            r == self.transform_swaps_handedness,
    {
        self.transform_swaps_handedness
    }
}

/// A light on a surface that emits the same radiance in every direction of its side.
#[derive(Clone, Copy, Debug, PartialEq, Eq, Structural)]
pub struct AreaLight {
    pub l_emit: Spectrum,
    pub two_sided: bool,
}

impl AreaLight {
    /// The radiance that leaves a point with normal `n` toward `w`: the light's radiance on
    /// the side the normal points to, and on the other side too where the light has two
    /// sides; nothing else.
    pub open spec fn emitted(self, n: Normal3, w: Vector3) -> Spectrum {
        if self.two_sided || n.dot(w) > 0 {
            self.l_emit
        } else {
            Spectrum::uniform(0)
        }
    }

    /// The radiance that leaves a point with normal `n` toward `w`.
    pub fn l(&self, n: &Normal3, w: &Vector3) -> (s: Spectrum)
        ensures
            s == self.emitted(*n, *w),
    {
        if self.two_sided || vec3_dot(n, w) > 0 {
            self.l_emit
        } else {
            Spectrum::new(0)
        }
    }
}

/// The appearance of a surface: the lobes of its scattering function and, where light
/// travels below the surface, its subsurface scattering function.
#[derive(Clone, Copy, Debug, PartialEq, Eq)]
pub struct Material {
    pub eta: Fixed,
    pub n_bxdfs: usize,
    pub bxdfs: [u8; 8],
    pub bssrdf: Option<BssrdfId>,
}

impl Material {
    /// The scattering function of the material for a path of the given kind.
    pub open spec fn bsdf(self, mode: TransportMode, allow_multiple_lobes: bool) -> Bsdf {
        Bsdf {
            eta: self.eta,
            n_bxdfs: self.n_bxdfs,
            bxdfs: self.bxdfs,
            mode,
            allow_multiple_lobes,
        }
    }
}

/// A primitive of the scene: a surface that may emit light and may scatter it. A primitive
/// without a material only marks the boundary between two media.
#[derive(Clone, Copy, Debug, PartialEq, Eq)]
pub struct Primitive {
    pub area_light: Option<AreaLight>,
    pub material: Option<Material>,
}

impl Primitive {
    /// The light on the primitive, if it emits.
    pub fn get_area_light(&self) -> (r: Option<AreaLight>)
        ensures
            r == self.area_light,
    {
        self.area_light
    }

    /// The scattering function of the primitive, if it scatters.
    pub open spec fn bsdf(self, mode: TransportMode, allow_multiple_lobes: bool) -> Option<Bsdf> {
        match self.material {
            Some(m) => Some(m.bsdf(mode, allow_multiple_lobes)),
            None => None,
        }
    }

    /// The subsurface scattering function of the primitive, if it has one.
    pub open spec fn bssrdf(self) -> Option<BssrdfId> {
        match self.material {
            Some(m) => m.bssrdf,
            None => None,
        }
    }

    /// The scattering functions of the primitive for a path of the given kind.
    pub fn scattering_functions(&self, mode: TransportMode, allow_multiple_lobes: bool) -> (r: (
        Option<Bsdf>,
        Option<BssrdfId>,
    ))
        ensures
            r.0 == self.bsdf(mode, allow_multiple_lobes),
            r.1 == self.bssrdf(),
    {
        match self.material {
            Some(m) => (
                Some(
                    Bsdf {
                        eta: m.eta,
                        n_bxdfs: m.n_bxdfs,
                        bxdfs: m.bxdfs,
                        mode,
                        allow_multiple_lobes,
                    },
                ),
                m.bssrdf,
            ),
            None => (None, None),
        }
    }
}

/// The primitive that an identifier names, if the table holds it.
pub open spec fn primitive_at(primitives: Seq<Primitive>, id: Option<PrimitiveId>) -> Option<Primitive> {
    match id {
        Some(i) => if i.index < primitives.len() {
            Some(primitives[i.index as int])
        } else {
            None
        },
        None => None,
    }
}

/// Looks a primitive up in the table.
pub fn lookup_primitive(primitives: &Vec<Primitive>, id: Option<PrimitiveId>) -> (r: Option<Primitive>)
    ensures
        r == primitive_at(primitives@, id),
{
    match id {
        Some(i) => if i.index < primitives.len() {
            Some(primitives[i.index])
        } else {
            None
        },
        None => None,
    }
}

} // verus!
