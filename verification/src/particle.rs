//! A body: a point mass with a position and a velocity.

use vstd::prelude::*;
use crate::appearance::Appearance;
use crate::boundary::Boundary;
use crate::fixed::{Fixed, HALF, SCALE};
use crate::force::weighted_pull;
use crate::nannou_calls::{carried, map_between};
use crate::vector::Vector;

verus! {

/// What a body is at one moment. Contracts speak of bodies through this.
pub struct Body {
    pub position: Vector,
    pub velocity: Vector,
    pub mass: Fixed,
}

impl Body {
    /// The body with `delta` added to its velocity.
    pub open spec fn accelerate(self, delta: Vector) -> Body {
        Body { position: self.position, velocity: self.velocity.plus(delta), mass: self.mass }
    }

    /// The body after the mass-weighted pull, with the constant one, of a
    /// body of mass `mass` at `position`.
    pub open spec fn pulled_by(self, position: Vector, mass: Fixed) -> Body {
        self.accelerate(weighted_pull(Fixed::from_int(1), self.position, self.mass, position, mass))
    }

    /// The body after the pull of each of `others` in turn.
    pub open spec fn pulled_by_all(self, others: Seq<Body>) -> Body
        decreases others.len(),
    {
        if others.len() == 0 {
            self
        } else {
            self.pulled_by_all(others.drop_last()).pulled_by(
                others.last().position,
                others.last().mass,
            )
        }
    }

    /// The velocity on one axis after reflection: turned round where the
    /// next coordinate would lie past either side.
    pub open spec fn reflect(at: Fixed, speed: Fixed, low: Fixed, high: Fixed) -> Fixed {
        if at.plus(speed).raw > high.raw || at.plus(speed).raw < low.raw {
            speed.negated()
        } else {
            speed
        }
    }

    /// The body one move later: its velocity reflected off the sides of
    /// `window`, each axis on its own, and its position moved by the velocity
    /// so reflected.
    pub open spec fn advance(self, window: Boundary) -> Body {
        let velocity = Vector {
            x: Body::reflect(self.position.x, self.velocity.x, window.left, window.right),
            y: Body::reflect(self.position.y, self.velocity.y, window.bottom, window.top),
        };
        Body { position: self.position.plus(velocity), velocity, mass: self.mass }
    }
}

pub open spec fn spec_star_velocity(first: Fixed, second: Fixed) -> Vector {
    Vector { x: first.minus(Fixed::half()), y: second.minus(Fixed::half()) }
}

/// The velocity that two draws give a star: each draw less one half.
#[verifier::when_used_as_spec(spec_star_velocity)]
pub fn star_velocity(first: Fixed, second: Fixed) -> (r: Vector)
    ensures
        r == spec_star_velocity(first, second),
{
    Vector { x: first.minus(Fixed::half()), y: second.minus(Fixed::half()) }
}

pub open spec fn spec_star_mass(draw: Fixed) -> Fixed {
    Fixed::from_int(200).plus(draw.times(Fixed::from_int(300)))
}

/// The mass that a draw gives a star: two hundred, and three hundred times
/// the draw.
#[verifier::when_used_as_spec(spec_star_mass)]
pub fn star_mass(draw: Fixed) -> (r: Fixed)
    ensures
        r == spec_star_mass(draw),
{
    Fixed::from_int(200).plus(draw.times(Fixed::from_int(300)))
}

/// The share of blue in the colour of a light body: its mass carried from
/// the range 200..500 to the range 0..1.
pub open spec fn spec_blue(mass: Fixed) -> Fixed {
    Fixed {
        raw: carried(mass.raw as int, 200 * SCALE, 500 * SCALE, 0, SCALE as int) as i64,
    }
}

/// How a body of mass `mass` is drawn.
pub open spec fn spec_display(mass: Fixed) -> Appearance {
    if mass.raw < 1000 * SCALE {
        Appearance::light(mass, spec_blue(mass))
    } else {
        Appearance::heavy()
    }
}

/// The bodies that `particles` stand for, in their order.
pub open spec fn bodies_of(particles: Seq<Particle>) -> Seq<Body> {
    particles.map_values(|p: Particle| p@)
}

/// Whether `body` can be a star drawn at random: each coordinate of its
/// velocity lies from minus one half up to one half, and its mass from two
/// hundred up to five hundred.
pub open spec fn is_star(body: Body) -> bool {
    &&& -HALF <= body.velocity.x.raw < HALF
    &&& -HALF <= body.velocity.y.raw < HALF
    &&& 200 * SCALE <= body.mass.raw < 500 * SCALE
}

/// A body. Its mass is positive and never changes.
#[derive(Clone, Copy, Debug)]
pub struct Particle {
    position: Vector,
    velocity: Vector,
    mass: Fixed,
}

impl View for Particle {
    type V = Body;

    closed spec fn view(&self) -> Body {
        Body { position: self.position, velocity: self.velocity, mass: self.mass }
    }
}

impl Particle {
    #[verifier::type_invariant]
    spec fn positive_mass(self) -> bool {
        self.mass.raw > 0
    }

    /// A body at `(x, y)` with the given mass and velocity, unless the mass
    /// is zero or less.
    pub fn new_particle(x: Fixed, y: Fixed, mass: Fixed, velocity: Vector) -> (r: Option<Particle>)
        ensures
            mass.raw > 0 ==> (r matches Some(p) && p@ == (Body {
                position: Vector { x, y },
                velocity,
                mass,
            })),
            mass.raw <= 0 ==> r is None,
    {
        if mass.raw > 0 {
            Some(Particle { position: Vector { x, y }, velocity, mass })
        } else {
            None
        }
    }

    /// The star at `(x, y)` that three draws make: the first two give its
    /// velocity, the third its mass. There is none where the mass so drawn
    /// is zero or less, which no draw from zero up gives.
    pub fn from_draws(x: Fixed, y: Fixed, first: Fixed, second: Fixed, third: Fixed) -> (r: Option<
        Particle,
    >)
        ensures
            star_mass(third).raw > 0 ==> (r matches Some(p) && p@ == (Body {
                position: Vector { x, y },
                velocity: star_velocity(first, second),
                mass: star_mass(third),
            })),
            star_mass(third).raw <= 0 ==> r is None,
            0 <= third.raw ==> r is Some,
    {
        proof {
            lemma_star_mass(third);
        }
        Particle::new_particle(x, y, star_mass(third), star_velocity(first, second))
    }

    /// A star at `(x, y)`, its velocity and its mass drawn at random.
    pub fn new(x: Fixed, y: Fixed) -> (p: Particle)
        ensures
            p@.position == (Vector { x, y }),
            is_star(p@),
    {
        let first = Fixed::draw();
        let second = Fixed::draw();
        let third = Fixed::draw();
        proof {
            lemma_star_mass(third);
        }
        Particle::from_draws(x, y, first, second, third).unwrap()
    }

    /// Where the body is.
    pub fn position(&self) -> (r: Vector)
        ensures
            r == self@.position,
    {
        self.position
    }

    /// How far the body moves in one step.
    pub fn velocity(&self) -> (r: Vector)
        ensures
            r == self@.velocity,
    {
        self.velocity
    }

    /// The mass, which is positive.
    pub fn mass(&self) -> (r: Fixed)
        ensures
            r == self@.mass,
            r.raw > 0,
    {
        proof {
            use_type_invariant(self);
        }
        self.mass
    }

    /// Adds `delta` to the velocity.
    pub fn accelerate(&mut self, delta: Vector)
        ensures
            final(self)@ == old(self)@.accelerate(delta),
    {
        proof {
            use_type_invariant(&*self);
        }
        self.velocity = self.velocity.plus(delta);
    }

    /// Adds to the velocity the mass-weighted pull, with the constant one, of
    /// a body of mass `mass` at `position`.
    pub fn apply_gravity_to_particle(&mut self, position: Vector, mass: Fixed)
        ensures
            final(self)@ == old(self)@.pulled_by(position, mass),
    {
        let delta = weighted_pull(Fixed::from_int(1), self.position, self.mass, position, mass);
        self.accelerate(delta);
    }

    /// Adds to the velocity the pull of each of `particles` in turn, as
    /// `apply_gravity_to_particle` does for one. A body that is itself
    /// among them is pulled by itself like by any other.
    pub fn apply_gravity(&mut self, particles: &Vec<Particle>)
        ensures
            final(self)@ == old(self)@.pulled_by_all(bodies_of(particles@)),
    {
        let ghost others = bodies_of(particles@);
        let mut i: usize = 0;
        while i < particles.len()
            invariant
                i <= particles.len(),
                others == bodies_of(particles@),
                self@ == old(self)@.pulled_by_all(others.take(i as int)),
            decreases particles.len() - i,
        {
            proof {
                assert(others.take(i + 1).drop_last() =~= others.take(i as int));
            }
            let position = particles[i].position();
            let mass = particles[i].mass();
            self.apply_gravity_to_particle(position, mass);
            i += 1;
        }
        proof {
            assert(others.take(particles.len() as int) =~= others);
        }
    }

    /// Reflects the velocity off the sides of `window` and moves the body by
    /// it. Each axis is reflected once, by where the body would be after a
    /// move at its velocity as it stands; a body may thus still leave the
    /// rectangle.
    pub fn update(&mut self, window: &Boundary)
        ensures
            final(self)@ == old(self)@.advance(*window),
    {
        proof {
            use_type_invariant(&*self);
        }
        let ahead = self.position.plus(self.velocity);
        if ahead.x.raw > window.right.raw || ahead.x.raw < window.left.raw {
            self.velocity = Vector { x: self.velocity.x.negated(), y: self.velocity.y };
        }
        if ahead.y.raw > window.top.raw || ahead.y.raw < window.bottom.raw {
            self.velocity = Vector { x: self.velocity.x, y: self.velocity.y.negated() };
        }
        self.position = self.position.plus(self.velocity);
    }

    /// How the body is drawn. A body of mass under a thousand is light: its
    /// share of blue is its mass carried from the range 200..500 to the range
    /// 0..1, not kept within it. Any other body is heavy.
    pub fn display(&self) -> (look: Appearance)
        ensures
            look == spec_display(self@.mass),
    {
        proof {
            use_type_invariant(self);
        }
        if self.mass.raw < 1000 * SCALE {
            let blue = map_between(self.mass.raw, 200 * SCALE, 500 * SCALE, 0, SCALE);
            Appearance::light(self.mass, Fixed { raw: blue })
        } else {
            Appearance::heavy()
        }
    }
}

/// A draw from zero up to one gives a mass from two hundred up to five hundred.
pub proof fn lemma_star_mass(draw: Fixed)
    ensures
        0 <= draw.raw ==> star_mass(draw).raw >= 200 * SCALE,
        0 <= draw.raw < SCALE ==> star_mass(draw).raw == 200 * SCALE + 300 * draw.raw,
{
    if 0 <= draw.raw {
        let d = draw.raw as int;
        assert(d * (300 * SCALE) == (300 * d) * SCALE) by (nonlinear_arith);
        vstd::arithmetic::div_mod::lemma_div_by_multiple(300 * d, SCALE as int);
    }
}

} // verus!
