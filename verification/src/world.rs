//! The world: the bodies, the law that moves them, and one step of time.

use vstd::prelude::*;
use crate::boundary::{lemma_point_inside, Boundary};
use crate::fixed::{Fixed, SCALE};
use crate::force::{pull, ForceLaw};
use crate::particle::{
    bodies_of, is_star, lemma_star_mass, star_mass, star_velocity, Body, Particle,
};
use crate::vector::Vector;

verus! {

/// How many stars `model` scatters.
pub const STARS: usize = 49;

/// The sum of the pulls on body `i` from the bodies before `upto`, itself
/// left out, added in their order.
pub open spec fn net_pull(law: ForceLaw, g: Fixed, bodies: Seq<Body>, i: int, upto: int) -> Vector
    decreases upto,
{
    if upto <= 0 {
        Vector::zero()
    } else if upto - 1 == i {
        net_pull(law, g, bodies, i, upto - 1)
    } else {
        net_pull(law, g, bodies, i, upto - 1).plus(
            pull(
                law,
                g,
                bodies[i].position,
                bodies[i].mass,
                bodies[upto - 1].position,
                bodies[upto - 1].mass,
            ),
        )
    }
}

/// Body `i` one step later: the pulls of all the others, taken from where
/// they stood before the step, added to its velocity once, and then one move
/// within `window`.
pub open spec fn step_body(law: ForceLaw, g: Fixed, bodies: Seq<Body>, window: Boundary, i: int) -> Body {
    bodies[i].accelerate(net_pull(law, g, bodies, i, bodies.len() as int)).advance(window)
}

/// All the bodies one step later.
pub open spec fn step_all(law: ForceLaw, g: Fixed, bodies: Seq<Body>, window: Boundary) -> Seq<Body> {
    Seq::new(bodies.len(), |i: int| step_body(law, g, bodies, window, i))
}

/// The bodies after one step within each of `windows` in turn.
pub open spec fn run(law: ForceLaw, g: Fixed, bodies: Seq<Body>, windows: Seq<Boundary>) -> Seq<Body>
    decreases windows.len(),
{
    if windows.len() == 0 {
        bodies
    } else {
        step_all(law, g, run(law, g, bodies, windows.drop_last()), windows.last())
    }
}

/// The heavy body that `model` puts at the origin, at rest.
pub open spec fn sun() -> Body {
    Body { position: Vector::zero(), velocity: Vector::zero(), mass: Fixed::from_int(10000) }
}

/// The bodies, in a fixed order, with the force law and its constant. Bodies
/// are neither added nor removed.
pub struct World {
    particles: Vec<Particle>,
    law: ForceLaw,
    g: Fixed,
}

impl View for World {
    type V = Seq<Body>;

    closed spec fn view(&self) -> Seq<Body> {
        bodies_of(self.particles@)
    }
}

impl World {
    pub closed spec fn spec_law(&self) -> ForceLaw {
        self.law
    }

    pub closed spec fn spec_g(&self) -> Fixed {
        self.g
    }

    /// A world of the given bodies under `law` with the constant `g`.
    pub fn new(law: ForceLaw, g: Fixed, particles: Vec<Particle>) -> (world: World)
        ensures
            world@ == bodies_of(particles@),
            world.law() == law,
            world.g() == g,
    {
        World { particles, law, g }
    }

    /// The force law.
    #[verifier::when_used_as_spec(spec_law)]
    pub fn law(&self) -> (law: ForceLaw)
        ensures
            law == self.spec_law(),
    {
        self.law
    }

    /// The gravitational constant.
    #[verifier::when_used_as_spec(spec_g)]
    pub fn g(&self) -> (g: Fixed)
        ensures
            g == self.spec_g(),
    {
        self.g
    }

    /// The bodies, in their order.
    pub fn particles(&self) -> (particles: &Vec<Particle>)
        ensures
            bodies_of(particles@) == self@,
    {
        &self.particles
    }

    /// The sum of the pulls of all the other bodies on body `i`.
    fn net_pull_on(&self, i: usize) -> (delta: Vector)
        requires
            i < self@.len(),
        ensures
            delta == net_pull(self.law(), self.g(), self@, i as int, self@.len() as int),
    {
        let at = self.particles[i].position();
        let own_mass = self.particles[i].mass();
        let mut delta = Vector::zero();
        let mut j: usize = 0;
        while j < self.particles.len()
            invariant
                j <= self.particles.len(),
                i < self.particles.len(),
                at == self@[i as int].position,
                own_mass == self@[i as int].mass,
                delta == net_pull(self.law(), self.g(), self@, i as int, j as int),
            decreases self.particles.len() - j,
        {
            if j != i {
                let from = self.particles[j].position();
                let from_mass = self.particles[j].mass();
                delta = delta.plus(pull(self.law, self.g, at, own_mass, from, from_mass));
            }
            j += 1;
        }
        delta
    }

    /// Advances the world by one step within `window`.
    ///
    /// Every body's velocity first gets, once, the sum of the pulls of all
    /// the other bodies, each pull taken from where the bodies stood before
    /// the step. Then every body reflects off the sides of `window` and
    /// moves. The law, its constant and the masses stay as they are.
    pub fn step(&mut self, window: &Boundary)
        ensures
            final(self)@ == step_all(old(self).law(), old(self).g(), old(self)@, *window),
            final(self).law() == old(self).law(),
            final(self).g() == old(self).g(),
    {
        let n = self.particles.len();
        let ghost before = self@;
        let mut deltas: Vec<Vector> = Vec::new();
        let mut i: usize = 0;
        while i < n
            invariant
                i <= n,
                n == self.particles.len(),
                *self == *old(self),
                before == self@,
                deltas.len() == i,
                forall|k: int|
                    0 <= k < i ==> #[trigger] deltas[k] == net_pull(
                        self.law(),
                        self.g(),
                        before,
                        k,
                        n as int,
                    ),
            decreases n - i,
        {
            let delta = self.net_pull_on(i);
            deltas.push(delta);
            i += 1;
        }
        let mut i: usize = 0;
        while i < n
            invariant
                i <= n,
                n == self.particles.len(),
                n == before.len(),
                n == deltas.len(),
                self.law() == old(self).law(),
                self.g() == old(self).g(),
                before == old(self)@,
                forall|k: int|
                    0 <= k < n ==> #[trigger] deltas[k] == net_pull(
                        self.law(),
                        self.g(),
                        before,
                        k,
                        n as int,
                    ),
                forall|k: int|
                    0 <= k < i ==> (#[trigger] self.particles@[k])@ == step_body(
                        self.law(),
                        self.g(),
                        before,
                        *window,
                        k,
                    ),
                forall|k: int| i <= k < n ==> (#[trigger] self.particles@[k])@ == before[k],
            decreases n - i,
        {
            let mut particle = self.particles[i];
            particle.accelerate(deltas[i]);
            particle.update(window);
            self.particles.set(i, particle);
            i += 1;
        }
        proof {
            assert(self@ =~= step_all(old(self).law(), old(self).g(), before, *window));
        }
    }
}

/// The five draws that make one star: two place it, two give its velocity
/// and one its mass.
#[derive(Clone, Copy, Debug, PartialEq, Eq, Structural)]
pub struct StarDraws {
    pub across: Fixed,
    pub up: Fixed,
    pub first: Fixed,
    pub second: Fixed,
    pub third: Fixed,
}

impl StarDraws {
    /// Whether each draw is a fraction: zero or more, and less than one.
    pub open spec fn fractions(self) -> bool {
        &&& 0 <= self.across.raw < SCALE
        &&& 0 <= self.up.raw < SCALE
        &&& 0 <= self.first.raw < SCALE
        &&& 0 <= self.second.raw < SCALE
        &&& 0 <= self.third.raw < SCALE
    }

    /// The star that the draws make in `window`: it lies the fractions
    /// `across` and `up` of the way over the rectangle, and has the velocity
    /// and the mass that the other three draws give.
    pub open spec fn star(self, window: Boundary) -> Body {
        Body {
            position: window.point_at(self.across, self.up),
            velocity: star_velocity(self.first, self.second),
            mass: star_mass(self.third),
        }
    }

    /// Five fractions drawn at random, in the order of the fields.
    pub fn draw() -> (draws: StarDraws)
        ensures
            draws.fractions(),
    {
        let across = Fixed::draw();
        let up = Fixed::draw();
        let first = Fixed::draw();
        let second = Fixed::draw();
        let third = Fixed::draw();
        StarDraws { across, up, first, second, third }
    }
}

/// Whether each of `draws` gives its star a mass above zero.
pub open spec fn all_have_mass(draws: Seq<StarDraws>) -> bool {
    forall|i: int| 0 <= i < draws.len() ==> star_mass((#[trigger] draws[i]).third).raw > 0
}

/// The stars that `draws` make in `window`, one for each five draws, in
/// their order.
pub open spec fn stars_of(window: Boundary, draws: Seq<StarDraws>) -> Seq<Body> {
    Seq::new(draws.len(), |i: int| draws[i].star(window))
}

/// A star made of fractions is a star as `is_star` has it, and lies in a
/// rectangle that has room: on each axis at or after the low side, and
/// before the high one.
pub proof fn lemma_star_of_fractions(window: Boundary, draws: StarDraws)
    requires
        draws.fractions(),
    ensures
        is_star(draws.star(window)),
        window.valid() ==> {
            &&& window.left.raw <= draws.star(window).position.x.raw < window.right.raw
            &&& window.bottom.raw <= draws.star(window).position.y.raw < window.top.raw
        },
{
    lemma_star_mass(draws.third);
    if window.valid() {
        lemma_point_inside(window, draws.across, draws.up);
    }
}

/// The stars that `draws` make in `window`, or nothing where one of them
/// would have a mass of zero or less; no draws that are fractions give that.
pub fn stars_from(window: &Boundary, draws: &Vec<StarDraws>) -> (r: Option<Vec<Particle>>)
    ensures
        all_have_mass(draws@) ==> (r matches Some(stars) && bodies_of(stars@) == stars_of(
            *window,
            draws@,
        ) && stars.len() == draws.len()),
        !all_have_mass(draws@) ==> r is None,
{
    let mut stars: Vec<Particle> = Vec::new();
    let mut i: usize = 0;
    while i < draws.len()
        invariant
            i <= draws.len(),
            stars.len() == i,
            forall|k: int| 0 <= k < i ==> star_mass((#[trigger] draws@[k]).third).raw > 0,
            forall|k: int| 0 <= k < i ==> (#[trigger] stars@[k])@ == draws@[k].star(*window),
        decreases draws.len() - i,
    {
        let five = draws[i];
        let at = window.point_at(five.across, five.up);
        match Particle::from_draws(at.x, at.y, five.first, five.second, five.third) {
            Some(star) => {
                stars.push(star);
            },
            None => {
                proof {
                    assert(!(star_mass(draws@[i as int].third).raw > 0));
                }
                return None;
            },
        }
        i += 1;
    }
    proof {
        assert(bodies_of(stars@) =~= stars_of(*window, draws@));
    }
    Some(stars)
}

/// The world that `draws` make in `window`: under the mass-weighted law with
/// the constant one, the stars of `stars_from` and after them the sun, at
/// rest at the origin. There is none where `stars_from` gives none.
pub fn world_from(window: &Boundary, draws: &Vec<StarDraws>) -> (r: Option<World>)
    ensures
        all_have_mass(draws@) ==> (r matches Some(world) && world@ == stars_of(
            *window,
            draws@,
        ).push(sun()) && world.law() == ForceLaw::MassWeighted && world.g() == Fixed::from_int(
            1,
        )),
        !all_have_mass(draws@) ==> r is None,
{
    match stars_from(window, draws) {
        Some(stars) => {
            let mut particles = stars;
            let ghost before = particles@;
            let zero = Fixed::from_int(0);
            let heavy = Particle::new_particle(zero, zero, Fixed::from_int(10000), Vector::zero());
            particles.push(heavy.unwrap());
            proof {
                assert(bodies_of(particles@) =~= bodies_of(before).push(sun()));
            }
            Some(World::new(ForceLaw::MassWeighted, Fixed::from_int(1), particles))
        },
        None => None,
    }
}

/// That many times five fractions drawn at random.
fn draw_for(stars: usize) -> (draws: Vec<StarDraws>)
    ensures
        draws.len() == stars,
        forall|i: int| 0 <= i < stars ==> (#[trigger] draws@[i]).fractions(),
{
    let mut draws: Vec<StarDraws> = Vec::new();
    let mut i: usize = 0;
    while i < stars
        invariant
            i <= stars,
            draws.len() == i,
            forall|k: int| 0 <= k < i ==> (#[trigger] draws@[k]).fractions(),
        decreases stars - i,
    {
        draws.push(StarDraws::draw());
        i += 1;
    }
    draws
}

/// Draws that are fractions give every star a mass.
proof fn lemma_fractions_have_mass(draws: Seq<StarDraws>)
    requires
        forall|i: int| 0 <= i < draws.len() ==> (#[trigger] draws[i]).fractions(),
    ensures
        all_have_mass(draws),
{
    assert forall|i: int| 0 <= i < draws.len() implies star_mass(
        (#[trigger] draws[i]).third,
    ).raw > 0 by {
        lemma_star_mass(draws[i].third);
    }
}

/// That many stars scattered at random over `window`: the stars that
/// `stars_from` makes of five draws each.
pub fn scatter(window: &Boundary, stars: usize) -> (particles: Vec<Particle>)
    ensures
        particles.len() == stars,
        forall|i: int| 0 <= i < stars ==> is_star((#[trigger] particles@[i])@),
        window.valid() ==> forall|i: int|
            0 <= i < stars ==> {
                &&& window.left.raw <= (#[trigger] particles@[i])@.position.x.raw
                    < window.right.raw
                &&& window.bottom.raw <= particles@[i]@.position.y.raw < window.top.raw
            },
{
    let draws = draw_for(stars);
    proof {
        lemma_fractions_have_mass(draws@);
    }
    let particles = stars_from(window, &draws).unwrap();
    proof {
        assert forall|i: int| 0 <= i < stars implies {
            &&& is_star((#[trigger] particles@[i])@)
            &&& window.valid() ==> {
                &&& window.left.raw <= particles@[i]@.position.x.raw < window.right.raw
                &&& window.bottom.raw <= particles@[i]@.position.y.raw < window.top.raw
            }
        } by {
            assert(particles@[i]@ == bodies_of(particles@)[i]);
            assert(stars_of(*window, draws@)[i] == draws@[i].star(*window));
            lemma_star_of_fractions(*window, draws@[i]);
        }
    }
    particles
}

/// A world drawn at random: the world that `world_from` makes of `STARS`
/// times five draws.
pub fn model(window: &Boundary) -> (world: World)
    ensures
        world.law() == ForceLaw::MassWeighted,
        world.g() == Fixed::from_int(1),
        world@.len() == STARS + 1,
        world@[STARS as int] == sun(),
        forall|i: int| 0 <= i < STARS ==> is_star(#[trigger] world@[i]),
        window.valid() ==> forall|i: int|
            0 <= i < STARS ==> {
                &&& window.left.raw <= (#[trigger] world@[i]).position.x.raw < window.right.raw
                &&& window.bottom.raw <= world@[i].position.y.raw < window.top.raw
            },
{
    let draws = draw_for(STARS);
    proof {
        lemma_fractions_have_mass(draws@);
    }
    let world = world_from(window, &draws).unwrap();
    proof {
        assert forall|i: int| 0 <= i < STARS implies {
            &&& is_star(#[trigger] world@[i])
            &&& window.valid() ==> {
                &&& window.left.raw <= world@[i].position.x.raw < window.right.raw
                &&& window.bottom.raw <= world@[i].position.y.raw < window.top.raw
            }
        } by {
            assert(world@[i] == stars_of(*window, draws@)[i]);
            assert(stars_of(*window, draws@)[i] == draws@[i].star(*window));
            lemma_star_of_fractions(*window, draws@[i]);
        }
    }
    world
}

} // verus!
