//! Points in space.

use vstd::prelude::*;
use crate::scalar::Scalar;
use crate::vector::Triple;

verus! {

/// A point. The protocol puts no bound on its coordinates.
#[derive(Debug, Clone, PartialEq, Eq)]
pub struct Position {
    pub x: Scalar,
    pub y: Scalar,
    pub z: Scalar,
}

impl View for Position {
    type V = Triple;

    open spec fn view(&self) -> Triple {
        Triple { x: self.x@, y: self.y@, z: self.z@ }
    }
}

impl Position {
    pub fn new(x: Scalar, y: Scalar, z: Scalar) -> (p: Self)
        ensures
            p@ == (Triple { x: x@, y: y@, z: z@ }),
    {
        Position { x, y, z }
    }

    /// The point whose three coordinates are zero.
    pub fn origin() -> (p: Self)
        ensures
            p@ == Triple::zero(),
    {
        Position { x: Scalar::zero(), y: Scalar::zero(), z: Scalar::zero() }
    }
}

} // verus!
