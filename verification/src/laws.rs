//! What holds of the simulation, proved from the definitions that the
//! contracts of the world and of its bodies use.

use vstd::prelude::*;
use crate::boundary::Boundary;
use crate::fixed::{
    lemma_zero_over, lemma_zero_over_square, lemma_zero_times, quotient, Fixed,
};
use crate::fixed::SCALE;
use crate::force::{
    gap, lemma_pull_is_felt, lemma_pull_points_at_source, lemma_pulls_opposite, pull,
    strong_enough, ForceLaw,
};
use crate::appearance::Appearance;
use crate::particle::{spec_display, Body};
use crate::vector::Vector;
use crate::world::{net_pull, run, step_all, step_body};

verus! {

/// With the constant zero no body pulls on any other, under either law.
pub proof fn lemma_no_pull_without_gravity(
    law: ForceLaw,
    at: Vector,
    own_mass: Fixed,
    from: Vector,
    from_mass: Fixed,
)
    ensures
        pull(law, Fixed::from_int(0), at, own_mass, from, from_mass) == Vector::zero(),
{
    let g = Fixed::from_int(0);
    match law {
        ForceLaw::Simple => {
            lemma_zero_over(g, from.x.minus(at.x));
            lemma_zero_over(g, from.y.minus(at.y));
        },
        ForceLaw::MassWeighted => {
            let abs_x = crate::force::gap(at.x, from.x);
            let abs_y = crate::force::gap(at.y, from.y);
            let distance = Fixed::from_int(1).max(abs_x.hypot(abs_y));
            lemma_zero_times(g, from_mass);
            lemma_zero_over_square(g.times(from_mass), distance);
            let gravity = g.times(from_mass).over_square(distance);
            assert(gravity.raw == 0);
            assert(gravity.negated() == gravity);
            lemma_zero_times(gravity, abs_x.over(distance));
            lemma_zero_times(gravity, abs_y.over(distance));
            lemma_zero_over(gravity.times(abs_x.over(distance)), own_mass);
            lemma_zero_over(gravity.times(abs_y.over(distance)), own_mass);
        },
    }
}

/// With the constant zero the pulls on a body add up to nothing.
pub proof fn lemma_no_net_pull_without_gravity(law: ForceLaw, bodies: Seq<Body>, i: int, upto: int)
    ensures
        net_pull(law, Fixed::from_int(0), bodies, i, upto) == Vector::zero(),
    decreases upto,
{
    if upto > 0 {
        lemma_no_net_pull_without_gravity(law, bodies, i, upto - 1);
        lemma_no_pull_without_gravity(
            law,
            bodies[i].position,
            bodies[i].mass,
            bodies[upto - 1].position,
            bodies[upto - 1].mass,
        );
    }
}

/// A body alone and at rest stays where it is, however many steps are
/// taken, whatever the law, its constant and the rectangles.
pub proof fn lemma_lone_body_rests(law: ForceLaw, g: Fixed, body: Body, windows: Seq<Boundary>)
    requires
        body.velocity == Vector::zero(),
    ensures
        run(law, g, seq![body], windows) == seq![body],
    decreases windows.len(),
{
    if windows.len() > 0 {
        lemma_lone_body_rests(law, g, body, windows.drop_last());
        let alone = seq![body];
        assert(net_pull(law, g, alone, 0, 1) == Vector::zero()) by {
            assert(net_pull(law, g, alone, 0, 0) == Vector::zero());
        }
        assert(step_body(law, g, alone, windows.last(), 0) == body);
        assert(step_all(law, g, alone, windows.last()) =~= alone);
    }
}

/// Whether a body that keeps its velocity stays within each of `windows`
/// at the step taken there: after `k + 1` moves it lies in rectangle `k`,
/// sides included.
pub open spec fn glides(body: Body, windows: Seq<Boundary>) -> bool {
    forall|k: int|
        0 <= k < windows.len() ==> (#[trigger] windows[k]).spans(
            body.position.x.raw + (k + 1) * body.velocity.x.raw,
            body.position.y.raw + (k + 1) * body.velocity.y.raw,
        )
}

/// With the constant zero, a body that meets no side moves in a straight
/// line at its own velocity: after any number of steps its velocity and its
/// mass are what they were, and its position has moved by that many
/// velocities. This holds under either law and whatever the other bodies do.
pub proof fn lemma_free_motion(law: ForceLaw, bodies: Seq<Body>, windows: Seq<Boundary>, i: int)
    requires
        0 <= i < bodies.len(),
        glides(bodies[i], windows),
    ensures
        run(law, Fixed::from_int(0), bodies, windows).len() == bodies.len(),
        run(law, Fixed::from_int(0), bodies, windows)[i].velocity == bodies[i].velocity,
        run(law, Fixed::from_int(0), bodies, windows)[i].mass == bodies[i].mass,
        run(law, Fixed::from_int(0), bodies, windows)[i].position.x.raw == bodies[i].position.x.raw
            + windows.len() * bodies[i].velocity.x.raw,
        run(law, Fixed::from_int(0), bodies, windows)[i].position.y.raw == bodies[i].position.y.raw
            + windows.len() * bodies[i].velocity.y.raw,
    decreases windows.len(),
{
    let g = Fixed::from_int(0);
    let n = windows.len() as int;
    let vx = bodies[i].velocity.x.raw as int;
    let vy = bodies[i].velocity.y.raw as int;
    if n == 0 {
        assert(0 * vx == 0 && 0 * vy == 0) by (nonlinear_arith);
    } else {
        let earlier = windows.drop_last();
        assert forall|k: int| 0 <= k < earlier.len() implies (#[trigger] earlier[k]).spans(
            bodies[i].position.x.raw + (k + 1) * bodies[i].velocity.x.raw,
            bodies[i].position.y.raw + (k + 1) * bodies[i].velocity.y.raw,
        ) by {
            assert(earlier[k] == windows[k]);
        }
        lemma_free_motion(law, bodies, earlier, i);
        let mid = run(law, g, bodies, earlier);
        lemma_no_net_pull_without_gravity(law, mid, i, mid.len() as int);
        assert(windows[n - 1].spans(
            bodies[i].position.x.raw + (n - 1 + 1) * vx,
            bodies[i].position.y.raw + (n - 1 + 1) * vy,
        ));
        assert((n - 1) * vx + vx == n * vx && (n - 1) * vy + vy == n * vy) by (nonlinear_arith);
        assert(earlier.len() == n - 1);
        assert(mid[i].accelerate(Vector::zero()) == mid[i]);
    }
}

/// A step neither adds nor removes a body, and changes no mass.
pub proof fn lemma_step_keeps_bodies(law: ForceLaw, g: Fixed, bodies: Seq<Body>, window: Boundary)
    ensures
        step_all(law, g, bodies, window).len() == bodies.len(),
        forall|i: int|
            0 <= i < bodies.len() ==> (#[trigger] step_all(law, g, bodies, window)[i]).mass
                == bodies[i].mass,
{
}

/// However many steps are taken, the bodies stay as many and each keeps
/// its mass.
pub proof fn lemma_run_keeps_bodies(law: ForceLaw, g: Fixed, bodies: Seq<Body>, windows: Seq<Boundary>)
    ensures
        run(law, g, bodies, windows).len() == bodies.len(),
        forall|i: int|
            0 <= i < bodies.len() ==> (#[trigger] run(law, g, bodies, windows)[i]).mass
                == bodies[i].mass,
    decreases windows.len(),
{
    if windows.len() > 0 {
        lemma_run_keeps_bodies(law, g, bodies, windows.drop_last());
        lemma_step_keeps_bodies(law, g, run(law, g, bodies, windows.drop_last()), windows.last());
    }
}

/// A body whose next place would lie past a side of the rectangle on the
/// horizontal axis turns round on that axis and moves by the velocity so
/// turned; one whose next place lies within keeps its velocity. The same
/// holds of the vertical axis, on its own.
pub proof fn lemma_reflection(body: Body, window: Boundary)
    ensures
        body.advance(window).mass == body.mass,
        body.advance(window).position == body.position.plus(body.advance(window).velocity),
        (body.position.x.plus(body.velocity.x).raw > window.right.raw || body.position.x.plus(
            body.velocity.x,
        ).raw < window.left.raw) ==> body.advance(window).velocity.x == body.velocity.x.negated(),
        window.left.raw <= body.position.x.plus(body.velocity.x).raw <= window.right.raw
            ==> body.advance(window).velocity.x == body.velocity.x,
        (body.position.y.plus(body.velocity.y).raw > window.top.raw || body.position.y.plus(
            body.velocity.y,
        ).raw < window.bottom.raw) ==> body.advance(window).velocity.y == body.velocity.y.negated(),
        window.bottom.raw <= body.position.y.plus(body.velocity.y).raw <= window.top.raw
            ==> body.advance(window).velocity.y == body.velocity.y,
{
}

/// Whether a body that gets `delta` added to its velocity keeps clear of
/// saturation and of the sides of `window`: the new velocity is the exact
/// sum, and the next place lies in the rectangle, sides included.
pub open spec fn undisturbed(body: Body, delta: Vector, window: Boundary) -> bool {
    &&& i64::MIN <= body.velocity.x.raw + delta.x.raw <= i64::MAX
    &&& i64::MIN <= body.velocity.y.raw + delta.y.raw <= i64::MAX
    &&& window.spans(
        body.position.x.raw + body.velocity.x.raw + delta.x.raw,
        body.position.y.raw + body.velocity.y.raw + delta.y.raw,
    )
}

/// A body that is undisturbed leaves a step with its velocity changed by
/// exactly the sum of the pulls on it.
pub proof fn lemma_undisturbed_step(law: ForceLaw, g: Fixed, bodies: Seq<Body>, window: Boundary, i: int)
    requires
        0 <= i < bodies.len(),
        undisturbed(bodies[i], net_pull(law, g, bodies, i, bodies.len() as int), window),
    ensures
        step_body(law, g, bodies, window, i).velocity.x.raw == bodies[i].velocity.x.raw + net_pull(
            law,
            g,
            bodies,
            i,
            bodies.len() as int,
        ).x.raw,
        step_body(law, g, bodies, window, i).velocity.y.raw == bodies[i].velocity.y.raw + net_pull(
            law,
            g,
            bodies,
            i,
            bodies.len() as int,
        ).y.raw,
{
}

/// In a world of two bodies, the sum of the pulls on each is the pull of
/// the other.
pub proof fn lemma_pair(law: ForceLaw, g: Fixed, a: Body, b: Body)
    ensures
        net_pull(law, g, seq![a, b], 0, 2) == pull(law, g, a.position, a.mass, b.position, b.mass),
        net_pull(law, g, seq![a, b], 1, 2) == pull(law, g, b.position, b.mass, a.position, a.mass),
{
    reveal_with_fuel(net_pull, 3);
    let pair = seq![a, b];
    assert(pair[0] == a && pair[1] == b);
}

/// Two bodies of equal mass at opposite places, not both at the origin,
/// pull each other by as much in opposite directions under the mass-weighted
/// law; and where both are undisturbed, one step changes their velocities by
/// as much in opposite directions.
pub proof fn lemma_equal_and_opposite(g: Fixed, a: Body, b: Body, window: Boundary)
    requires
        a.mass == b.mass,
        a.mass.raw > 0,
        a.position.x.raw == -b.position.x.raw,
        a.position.y.raw == -b.position.y.raw,
        a.position.x.raw != 0 || a.position.y.raw != 0,
    ensures
        net_pull(ForceLaw::MassWeighted, g, seq![a, b], 0, 2).x.raw == -net_pull(
            ForceLaw::MassWeighted,
            g,
            seq![a, b],
            1,
            2,
        ).x.raw,
        net_pull(ForceLaw::MassWeighted, g, seq![a, b], 0, 2).y.raw == -net_pull(
            ForceLaw::MassWeighted,
            g,
            seq![a, b],
            1,
            2,
        ).y.raw,
        (undisturbed(a, net_pull(ForceLaw::MassWeighted, g, seq![a, b], 0, 2), window)
            && undisturbed(b, net_pull(ForceLaw::MassWeighted, g, seq![a, b], 1, 2), window)) ==> {
            &&& step_body(ForceLaw::MassWeighted, g, seq![a, b], window, 0).velocity.x.raw
                - a.velocity.x.raw == -(step_body(
                ForceLaw::MassWeighted,
                g,
                seq![a, b],
                window,
                1,
            ).velocity.x.raw - b.velocity.x.raw)
            &&& step_body(ForceLaw::MassWeighted, g, seq![a, b], window, 0).velocity.y.raw
                - a.velocity.y.raw == -(step_body(
                ForceLaw::MassWeighted,
                g,
                seq![a, b],
                window,
                1,
            ).velocity.y.raw - b.velocity.y.raw)
        },
{
    let law = ForceLaw::MassWeighted;
    let pair = seq![a, b];
    lemma_pair(law, g, a, b);
    lemma_pulls_opposite(g, a.mass, a.position, b.position);
    assert(pair[0] == a && pair[1] == b && pair.len() == 2);
    if undisturbed(a, net_pull(law, g, pair, 0, 2), window) && undisturbed(
        b,
        net_pull(law, g, pair, 1, 2),
        window,
    ) {
        lemma_undisturbed_step(law, g, pair, window, 0);
        lemma_undisturbed_step(law, g, pair, window, 1);
    }
}

/// A body at rest beside one other body, under the mass-weighted law with
/// a constant that is not negative, is never pulled away from the other: on
/// each axis where the two differ, the sum of the pulls on it points at the
/// other body or is zero. Where its next place lies in the rectangle, that
/// sum is its velocity after one step.
pub proof fn lemma_falls_toward_anchor(g: Fixed, body: Body, anchor: Body, window: Boundary)
    requires
        g.raw >= 0,
        body.mass.raw > 0,
        anchor.mass.raw > 0,
        body.velocity == Vector::zero(),
    ensures
        body.position.x.raw < anchor.position.x.raw ==> net_pull(
            ForceLaw::MassWeighted,
            g,
            seq![body, anchor],
            0,
            2,
        ).x.raw >= 0,
        body.position.x.raw > anchor.position.x.raw ==> net_pull(
            ForceLaw::MassWeighted,
            g,
            seq![body, anchor],
            0,
            2,
        ).x.raw <= 0,
        body.position.y.raw < anchor.position.y.raw ==> net_pull(
            ForceLaw::MassWeighted,
            g,
            seq![body, anchor],
            0,
            2,
        ).y.raw >= 0,
        body.position.y.raw > anchor.position.y.raw ==> net_pull(
            ForceLaw::MassWeighted,
            g,
            seq![body, anchor],
            0,
            2,
        ).y.raw <= 0,
        undisturbed(body, net_pull(ForceLaw::MassWeighted, g, seq![body, anchor], 0, 2), window)
            ==> step_body(ForceLaw::MassWeighted, g, seq![body, anchor], window, 0).velocity
            == net_pull(ForceLaw::MassWeighted, g, seq![body, anchor], 0, 2),
{
    let law = ForceLaw::MassWeighted;
    let pair = seq![body, anchor];
    lemma_pair(law, g, body, anchor);
    lemma_pull_points_at_source(g, body.position, body.mass, anchor.position, anchor.mass);
    assert(pair[0] == body && pair.len() == 2);
    if undisturbed(body, net_pull(law, g, pair, 0, 2), window) {
        lemma_undisturbed_step(law, g, pair, window, 0);
    }
}

/// A body beside one other is pulled toward it for certain where the two
/// lie no more than `reach` apart on either axis and the other's attraction
/// is strong enough for that reach: on each axis where they differ, the sum
/// of the pulls on it points at the other body and is not zero.
pub proof fn lemma_anchor_is_felt(g: Fixed, body: Body, anchor: Body, reach: int)
    requires
        body.mass.raw > 0,
        gap(body.position.x, anchor.position.x).raw <= reach * SCALE,
        gap(body.position.y, anchor.position.y).raw <= reach * SCALE,
        strong_enough(g, body.mass, anchor.mass, reach),
    ensures
        body.position.x.raw < anchor.position.x.raw ==> net_pull(
            ForceLaw::MassWeighted,
            g,
            seq![body, anchor],
            0,
            2,
        ).x.raw > 0,
        body.position.x.raw > anchor.position.x.raw ==> net_pull(
            ForceLaw::MassWeighted,
            g,
            seq![body, anchor],
            0,
            2,
        ).x.raw < 0,
        body.position.y.raw < anchor.position.y.raw ==> net_pull(
            ForceLaw::MassWeighted,
            g,
            seq![body, anchor],
            0,
            2,
        ).y.raw > 0,
        body.position.y.raw > anchor.position.y.raw ==> net_pull(
            ForceLaw::MassWeighted,
            g,
            seq![body, anchor],
            0,
            2,
        ).y.raw < 0,
{
    lemma_pair(ForceLaw::MassWeighted, g, body, anchor);
    lemma_pull_is_felt(g, body.position, body.mass, anchor.position, anchor.mass, reach);
}

/// A body of mass 200 is drawn all red and one of mass 500 all blue, both
/// four fifths opaque and of a radius that is a hundredth of the mass; a body
/// of mass a thousand or more is drawn black, opaque and of radius twenty.
pub proof fn lemma_display_at_the_ends(heavy: Fixed)
    requires
        heavy.raw >= 1000 * SCALE,
    ensures
        spec_display(Fixed::from_int(200)) == (Appearance {
            red: Fixed::from_int(1),
            green: Fixed::from_int(0),
            blue: Fixed::from_int(0),
            alpha: Fixed { raw: 3435973836 },
            radius: Fixed::from_int(2),
        }),
        spec_display(Fixed::from_int(500)) == (Appearance {
            red: Fixed::from_int(0),
            green: Fixed::from_int(0),
            blue: Fixed::from_int(1),
            alpha: Fixed { raw: 3435973836 },
            radius: Fixed::from_int(5),
        }),
        spec_display(heavy) == (Appearance {
            red: Fixed::from_int(0),
            green: Fixed::from_int(0),
            blue: Fixed::from_int(0),
            alpha: Fixed::from_int(1),
            radius: Fixed::from_int(20),
        }),
{
    assert(SCALE == 4294967296);
    assert(Fixed::from_int(4).over(Fixed::from_int(5)).raw == 3435973836);
    assert(Fixed::from_int(200).over(Fixed::from_int(100)).raw == 2 * SCALE);
    assert(Fixed::from_int(500).over(Fixed::from_int(100)).raw == 5 * SCALE);
}

/// The sun of `model`, of mass 10000 under the constant one, is strong
/// enough to be felt at a reach of 2200 by any body of mass 500 or less.
pub proof fn lemma_sun_is_strong_enough(own_mass: Fixed)
    requires
        0 < own_mass.raw <= 500 * SCALE,
    ensures
        strong_enough(Fixed::from_int(1), own_mass, Fixed::from_int(10000), 2200),
{
    let sun = 10000 * SCALE;
    assert(SCALE == 4294967296);
    assert(SCALE * sun == sun * SCALE) by (nonlinear_arith);
    vstd::arithmetic::div_mod::lemma_div_by_multiple(sun, SCALE as int);
    assert(Fixed::from_int(1).times(Fixed::from_int(10000)).raw == sun);
    let m = own_mass.raw as int;
    let reach = 2200int;
    assert(sun * (SCALE - 2 * reach) >= (2 * reach) * (2 * reach) * (2 * reach) * (m + SCALE) + (2
        * reach) * (2 * reach) * SCALE) by (nonlinear_arith)
        requires
            sun == 10000 * SCALE,
            SCALE == 4294967296,
            reach == 2200,
            0 < m <= 500 * SCALE,
    ;
}

/// The share of blue of a light body is linear in its mass: the mass less
/// 200, over 300, rounded toward zero; and red is what blue leaves of one.
/// From a mass of 200 to one of 500 both lie from zero to one.
pub proof fn lemma_display_is_linear(mass: Fixed)
    requires
        mass.raw < 1000 * SCALE,
    ensures
        spec_display(mass).blue.raw == quotient(mass.raw - 200 * SCALE, 300),
        spec_display(mass).red == Fixed::from_int(1).minus(spec_display(mass).blue),
        200 * SCALE <= mass.raw <= 500 * SCALE ==> 0 <= spec_display(mass).blue.raw <= SCALE,
        200 * SCALE <= mass.raw <= 500 * SCALE ==> 0 <= spec_display(mass).red.raw <= SCALE,
{
    assert(SCALE == 4294967296);
    assert((500 * SCALE - 200 * SCALE) % (SCALE as int) == 0);
    assert((500 * SCALE - 200 * SCALE) / (SCALE as int) == 300);
}

} // verus!
