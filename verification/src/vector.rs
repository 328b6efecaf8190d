//! Headings in space.

use vstd::prelude::*;
use crate::scalar::{Scalar, ScalarView};

verus! {

/// Three scalars in the order x, y, z: the value of a [`Vector`] or of a
/// [`crate::position::Position`].
pub struct Triple {
    pub x: ScalarView,
    pub y: ScalarView,
    pub z: ScalarView,
}

impl Triple {
    /// The triple whose three components are zero.
    pub open spec fn zero() -> Triple {
        Triple { x: Scalar::zero_view(), y: Scalar::zero_view(), z: Scalar::zero_view() }
    }
}

/// A heading. It need not have unit length.
#[derive(Debug, Clone, PartialEq, Eq)]
pub struct Vector {
    pub x: Scalar,
    pub y: Scalar,
    pub z: Scalar,
}

impl View for Vector {
    type V = Triple;

    open spec fn view(&self) -> Triple {
        Triple { x: self.x@, y: self.y@, z: self.z@ }
    }
}

impl Vector {
    pub fn new(x: Scalar, y: Scalar, z: Scalar) -> (v: Self)
        ensures
            v@ == (Triple { x: x@, y: y@, z: z@ }),
    {
        Vector { x, y, z }
    }

    /// The heading with all three components zero.
    pub fn zero() -> (v: Self)
        ensures
            v@ == Triple::zero(),
    {
        Vector { x: Scalar::zero(), y: Scalar::zero(), z: Scalar::zero() }
    }
}

} // verus!
