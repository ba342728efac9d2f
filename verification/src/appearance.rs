//! How a body is drawn: a filled circle of one colour.

use vstd::prelude::*;
use crate::fixed::Fixed;

verus! {

/// The radius and the colour of the circle drawn for a body. The colour
/// channels and the opacity are measured on a scale from zero to one. Red and
/// blue are not kept within it: a body lighter than 200 or heavier than 500
/// gets a share of blue below zero or above one, and red what blue leaves of
/// one.
#[derive(Clone, Copy, Debug, PartialEq, Eq, Structural)]
pub struct Appearance {
    pub red: Fixed,
    pub green: Fixed,
    pub blue: Fixed,
    pub alpha: Fixed,
    pub radius: Fixed,
}

impl Appearance {
    pub open spec fn spec_light(mass: Fixed, blue: Fixed) -> Appearance {
        Appearance {
            red: Fixed::from_int(1).minus(blue),
            green: Fixed::from_int(0),
            blue,
            alpha: Fixed::from_int(4).over(Fixed::from_int(5)),
            radius: mass.over(Fixed::from_int(100)),
        }
    }

    /// The look of a light body whose share of blue is `blue`: red is what
    /// blue leaves of one, the opacity is four fifths, and the radius is a
    /// hundredth of the mass.
    #[verifier::when_used_as_spec(spec_light)]
    pub fn light(mass: Fixed, blue: Fixed) -> (look: Appearance)
        ensures
            look == Appearance::spec_light(mass, blue),
    {
        Appearance {
            red: Fixed::from_int(1).minus(blue),
            green: Fixed::from_int(0),
            blue,
            alpha: Fixed::from_int(4).over(Fixed::from_int(5)),
            radius: mass.over(Fixed::from_int(100)),
        }
    }

    pub open spec fn spec_heavy() -> Appearance {
        Appearance {
            red: Fixed::from_int(0),
            green: Fixed::from_int(0),
            blue: Fixed::from_int(0),
            alpha: Fixed::from_int(1),
            radius: Fixed::from_int(20),
        }
    }

    /// The look of a heavy body: black, opaque, of radius twenty.
    #[verifier::when_used_as_spec(spec_heavy)]
    pub fn heavy() -> (look: Appearance)
        ensures
            look == Appearance::spec_heavy(),
    {
        Appearance {
            red: Fixed::from_int(0),
            green: Fixed::from_int(0),
            blue: Fixed::from_int(0),
            alpha: Fixed::from_int(1),
            radius: Fixed::from_int(20),
        }
    }
}

} // verus!
