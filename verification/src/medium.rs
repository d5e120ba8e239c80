//! Participating media and the interfaces between them.

use vstd::prelude::*;

verus! {

/// A participating medium, named by its place in the scene's table of media.
#[derive(Clone, Copy, Debug, PartialEq, Eq, Structural)]
pub struct MediumId {
    pub index: usize,
}

/// A phase function, named by its place in the scene's table of phase functions.
#[derive(Clone, Copy, Debug, PartialEq, Eq, Structural)]
pub struct PhaseId {
    pub index: usize,
}

/// The media on the two sides of a surface. The outside is the side the normal points to.
#[derive(Clone, Copy, Debug, PartialEq, Eq)]
pub struct MediumInterface {
    pub inside: Option<MediumId>,
    pub outside: Option<MediumId>,
}

impl MediumInterface {
    /// An interface between the two given media.
    pub fn new(inside: Option<MediumId>, outside: Option<MediumId>) -> (r: MediumInterface)
        ensures
            r.inside == inside,
            r.outside == outside,
    {
        MediumInterface { inside, outside }
    }

    /// The medium on the side the normal points away from.
    pub fn get_inside(&self) -> (r: Option<MediumId>)
        ensures
            r == self.inside,
    {
        self.inside
    }

    /// The medium on the side the normal points to.
    pub fn get_outside(&self) -> (r: Option<MediumId>)
        ensures
            r == self.outside,
    {
        self.outside
    }

    /// Whether the surface separates two different media.
    pub fn is_medium_transition(&self) -> (r: bool)
        ensures
            r == (self.inside != self.outside),
    {
        match (self.inside, self.outside) {
            (None, None) => false,
            (Some(a), Some(b)) => a.index != b.index,
            _ => true,
        }
    }
}

} // verus!
