//! The rectangle that bodies bounce off.

use vstd::prelude::*;
use crate::fixed::{Fixed, SCALE};
use crate::vector::Vector;

verus! {

/// An axis-aligned rectangle, given by the coordinates of its four sides.
#[derive(Clone, Copy, Debug, PartialEq, Eq, Structural)]
pub struct Boundary {
    pub left: Fixed,
    pub right: Fixed,
    pub top: Fixed,
    pub bottom: Fixed,
}

impl Boundary {
    /// A rectangle has room on both axes.
    pub open spec fn valid(self) -> bool {
        self.left.raw < self.right.raw && self.bottom.raw < self.top.raw
    }

    /// Whether the point with raw coordinates `x` and `y` lies in the
    /// rectangle, its sides included.
    pub open spec fn spans(self, x: int, y: int) -> bool {
        self.left.raw <= x <= self.right.raw && self.bottom.raw <= y <= self.top.raw
    }

    /// Whether `point` lies in the rectangle, its sides included.
    pub open spec fn holds(self, point: Vector) -> bool {
        self.spans(point.x.raw as int, point.y.raw as int)
    }

    /// The rectangle with the given sides, unless it is degenerate.
    pub fn new(left: Fixed, right: Fixed, top: Fixed, bottom: Fixed) -> (r: Option<Boundary>)
        ensures
            r == (if (Boundary { left, right, top, bottom }).valid() {
                Some(Boundary { left, right, top, bottom })
            } else {
                None
            }),
    {
        if left.raw < right.raw && bottom.raw < top.raw {
            Some(Boundary { left, right, top, bottom })
        } else {
            None
        }
    }

    pub open spec fn spec_point_at(self, across: Fixed, up: Fixed) -> Vector {
        Vector {
            x: across.times(self.right.minus(self.left)).plus(self.left),
            y: up.times(self.top.minus(self.bottom)).plus(self.bottom),
        }
    }

    /// The point that lies the fraction `across` of the way from the left side
    /// to the right one, and the fraction `up` of the way from the bottom to
    /// the top.
    #[verifier::when_used_as_spec(spec_point_at)]
    pub fn point_at(self, across: Fixed, up: Fixed) -> (r: Vector)
        ensures
            r == self.spec_point_at(across, up),
    {
        Vector {
            x: across.times(self.right.minus(self.left)).plus(self.left),
            y: up.times(self.top.minus(self.bottom)).plus(self.bottom),
        }
    }
}

/// A point taken at fractions from zero up to one lies in a rectangle that
/// has room: on each axis at or after the low side, and before the high one.
pub proof fn lemma_point_inside(window: Boundary, across: Fixed, up: Fixed)
    requires
        window.valid(),
        0 <= across.raw < SCALE,
        0 <= up.raw < SCALE,
    ensures
        window.left.raw <= window.point_at(across, up).x.raw < window.right.raw,
        window.bottom.raw <= window.point_at(across, up).y.raw < window.top.raw,
        window.holds(window.point_at(across, up)),
{
    lemma_share(across, window.right.minus(window.left));
    lemma_share(up, window.top.minus(window.bottom));
}

/// A fraction from zero up to one of a positive length is zero or more, and
/// less than the length.
proof fn lemma_share(part: Fixed, length: Fixed)
    requires
        0 <= part.raw < SCALE,
        0 < length.raw,
    ensures
        0 <= part.times(length).raw < length.raw,
{
    let a = part.raw as int;
    let w = length.raw as int;
    assert(0 <= a * w < SCALE * w) by (nonlinear_arith)
        requires
            0 <= a < SCALE,
            0 < w,
    ;
    assert((a * w) / (SCALE as int) < w) by (nonlinear_arith)
        requires
            0 <= a * w < SCALE * w,
            SCALE > 0,
    ;
    assert(0 <= (a * w) / (SCALE as int)) by (nonlinear_arith)
        requires
            0 <= a * w,
            SCALE > 0,
    ;
}

} // verus!
