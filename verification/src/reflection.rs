//! Scattering functions, as far as a path needs to know them: the kinds of their lobes.

use crate::fixed::Fixed;
use vstd::prelude::*;

verus! {

/// A lobe reflects light back to the side it came from.
pub const BSDF_REFLECTION: u8 = 1;

/// A lobe lets light through to the other side.
pub const BSDF_TRANSMISSION: u8 = 2;

/// A lobe scatters in all directions.
pub const BSDF_DIFFUSE: u8 = 4;

/// A lobe scatters around one direction.
pub const BSDF_GLOSSY: u8 = 8;

/// A lobe scatters in a single direction.
pub const BSDF_SPECULAR: u8 = 16;

/// Every kind of lobe.
pub const BSDF_ALL: u8 = 31;

/// Every kind of lobe but the specular ones.
pub const BSDF_NON_SPECULAR: u8 = 15;

/// The largest number of lobes of one scattering function.
pub const MAX_BXDFS: usize = 8;

/// What a path carries: radiance from a light, or importance from a camera.
#[derive(Clone, Copy, Debug, PartialEq, Eq, Structural)]
pub enum TransportMode {
    Radiance,
    Importance,
}

/// Whether a lobe of kind `lobe` is among the kinds `flags`: every bit of the lobe is asked
/// for.
pub open spec fn matches_flags(lobe: u8, flags: u8) -> bool {
    lobe & flags == lobe
}

/// How many of the first `n` lobes are among the kinds `flags`.
pub open spec fn count_matching(lobes: Seq<u8>, n: nat, flags: u8) -> nat
    decreases n,
{
    if n == 0 {
        0
    } else {
        count_matching(lobes, (n - 1) as nat, flags) + if matches_flags(
            lobes[n - 1],
            flags,
        ) {
            1nat
        } else {
            0nat
        }
    }
}

/// The scattering function at a point of a surface, as far as a path needs to know it: the
/// kinds of its lobes and its relative index of refraction.
#[derive(Clone, Copy, Debug, PartialEq, Eq)]
pub struct Bsdf {
    /// The relative index of refraction over the surface.
    pub eta: Fixed,
    /// The number of lobes; at most `MAX_BXDFS` of them count.
    pub n_bxdfs: usize,
    /// The kind of each lobe.
    pub bxdfs: [u8; 8],
    pub mode: TransportMode,
    pub allow_multiple_lobes: bool,
}

impl Bsdf {
    /// The number of lobes that count.
    pub open spec fn lobe_count(self) -> nat {
        if self.n_bxdfs <= MAX_BXDFS {
            self.n_bxdfs as nat
        } else {
            MAX_BXDFS as nat
        }
    }

    /// How many lobes are among the kinds `flags`.
    pub open spec fn components(self, flags: u8) -> nat {
        count_matching(self.bxdfs@, self.lobe_count(), flags)
    }

    /// How many lobes are among the kinds `flags`.
    pub fn num_components(&self, flags: u8) -> (r: u8)
        ensures
            r == self.components(flags),
            r <= MAX_BXDFS,
    {
        let n: usize = if self.n_bxdfs <= MAX_BXDFS {
            self.n_bxdfs
        } else {
            MAX_BXDFS
        };
        let mut count: u8 = 0;
        let mut i: usize = 0;
        while i < n
            invariant
                i <= n <= MAX_BXDFS,
                n == self.lobe_count(),
                count == count_matching(self.bxdfs@, i as nat, flags),
                count <= i,
            decreases n - i,
        {
            if self.bxdfs[i] & flags == self.bxdfs[i] {
                count = count + 1;
            }
            i = i + 1;
        }
        count
    }
}

} // verus!
