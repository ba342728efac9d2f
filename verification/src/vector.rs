//! Points and displacements in the plane.

use vstd::prelude::*;
use crate::fixed::Fixed;

verus! {

/// A point of the plane, or a displacement in it.
#[derive(Clone, Copy, Debug, PartialEq, Eq, Structural)]
pub struct Vector {
    pub x: Fixed,
    pub y: Fixed,
}

impl Vector {
    pub open spec fn spec_new(x: Fixed, y: Fixed) -> Vector {
        Vector { x, y }
    }

    #[verifier::when_used_as_spec(spec_new)]
    pub fn new(x: Fixed, y: Fixed) -> (r: Vector)
        ensures
            r == Vector::spec_new(x, y),
    {
        Vector { x, y }
    }

    pub open spec fn spec_zero() -> Vector {
        Vector { x: Fixed { raw: 0 }, y: Fixed { raw: 0 } }
    }

    /// The origin, and the displacement that moves nothing.
    #[verifier::when_used_as_spec(spec_zero)]
    pub fn zero() -> (r: Vector)
        ensures
            r == Vector::spec_zero(),
    {
        Vector { x: Fixed { raw: 0 }, y: Fixed { raw: 0 } }
    }

    pub open spec fn spec_plus(self, rhs: Vector) -> Vector {
        Vector { x: self.x.plus(rhs.x), y: self.y.plus(rhs.y) }
    }

    /// The sum, each coordinate saturated on its own.
    #[verifier::when_used_as_spec(spec_plus)]
    pub fn plus(self, rhs: Vector) -> (r: Vector)
        ensures
            r == self.spec_plus(rhs),
    {
        Vector { x: self.x.plus(rhs.x), y: self.y.plus(rhs.y) }
    }
}

} // verus!
