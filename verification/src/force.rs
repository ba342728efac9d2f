//! The two force laws, and the pull of one body on another under each.

use vstd::prelude::*;
use crate::fixed::{
    floor_sqrt, lemma_floor_sqrt_at_least, lemma_floor_sqrt_bounds, lemma_magnitude_of_product,
    lemma_over_sign, lemma_over_square_sign, lemma_quotient, lemma_times_sign, quotient, Fixed,
    SCALE,
};
use crate::nannou_calls::magnitude_of;
use crate::vector::Vector;

verus! {

/// How one body pulls on another.
#[derive(Clone, Copy, Debug, PartialEq, Eq, Structural)]
pub enum ForceLaw {
    /// The constant over the gap, axis by axis. It takes no account of
    /// either mass, and as a gap closes the pull grows without limit until
    /// it saturates: a simulation under this law may diverge.
    Simple,
    /// Inverse-square attraction weighted by the pulling body's mass, with
    /// each gap and the distance taken as at least one, so that there is no
    /// singularity. This is the law to prefer.
    MassWeighted,
}

impl ForceLaw {
    pub open spec fn spec_default_g(self) -> Fixed {
        match self {
            ForceLaw::Simple => Fixed::from_int(2),
            ForceLaw::MassWeighted => Fixed::from_int(1),
        }
    }

    /// The gravitational constant that goes with the law: two for the simple
    /// law, one for the mass-weighted one.
    #[verifier::when_used_as_spec(spec_default_g)]
    pub fn default_g(self) -> (g: Fixed)
        ensures
            g == self.spec_default_g(),
    {
        match self {
            ForceLaw::Simple => Fixed::from_int(2),
            ForceLaw::MassWeighted => Fixed::from_int(1),
        }
    }
}

/// The pull under the simple law on a body at `at` from one at `from`.
pub open spec fn spec_simple_pull(g: Fixed, at: Vector, from: Vector) -> Vector {
    Vector { x: g.over(from.x.minus(at.x)), y: g.over(from.y.minus(at.y)) }
}

/// The change of velocity that a body at `at` gets under the simple law from
/// a body at `from`: on each axis the constant over the gap toward the other
/// body. Where the gap is zero the pull is the greatest value there is (zero
/// if the constant is zero).
#[verifier::when_used_as_spec(spec_simple_pull)]
pub fn simple_pull(g: Fixed, at: Vector, from: Vector) -> (pull: Vector)
    ensures
        pull == spec_simple_pull(g, at, from),
{
    Vector { x: g.over(from.x.minus(at.x)), y: g.over(from.y.minus(at.y)) }
}

/// `gravity`, pointed backward or forward, times the share `gap / distance`,
/// over `own_mass`.
pub open spec fn spec_axis_pull(
    gravity: Fixed,
    gap: Fixed,
    distance: Fixed,
    backward: bool,
    own_mass: Fixed,
) -> Fixed {
    let signed = if backward {
        gravity.negated()
    } else {
        gravity
    };
    signed.times(gap.over(distance)).over(own_mass)
}

/// One axis of the mass-weighted pull, from the attraction, the gap on that
/// axis, the distance, whether the other body lies behind, and the mass that
/// the pull acts on.
#[verifier::when_used_as_spec(spec_axis_pull)]
pub fn axis_pull(gravity: Fixed, gap: Fixed, distance: Fixed, backward: bool, own_mass: Fixed) -> (r:
    Fixed)
    ensures
        r == spec_axis_pull(gravity, gap, distance, backward, own_mass),
{
    let signed = if backward {
        gravity.negated()
    } else {
        gravity
    };
    signed.times(gap.over(distance)).over(own_mass)
}

pub open spec fn spec_gap(a: Fixed, b: Fixed) -> Fixed {
    Fixed::from_int(1).max(a.minus(b).abs())
}

/// The gap between two coordinates, taken as at least one.
#[verifier::when_used_as_spec(spec_gap)]
pub fn gap(a: Fixed, b: Fixed) -> (r: Fixed)
    ensures
        r == spec_gap(a, b),
{
    Fixed::from_int(1).max(a.minus(b).abs())
}

pub open spec fn spec_directed_pull(
    gravity: Fixed,
    gap: Fixed,
    distance: Fixed,
    at: Fixed,
    from: Fixed,
    apart: bool,
    own_mass: Fixed,
) -> Fixed {
    if at.raw == from.raw && apart {
        Fixed::from_int(0)
    } else {
        axis_pull(gravity, gap, distance, at.raw > from.raw, own_mass)
    }
}

/// One axis of the mass-weighted pull on a body whose coordinate on that axis
/// is `at`, from a body whose coordinate is `from`; `apart` says whether the
/// two differ on the other axis. The pull points at the other body. Where
/// the two are level on this axis and apart on the other, there is none;
/// where they are at one place, it points forward.
#[verifier::when_used_as_spec(spec_directed_pull)]
pub fn directed_pull(
    gravity: Fixed,
    gap: Fixed,
    distance: Fixed,
    at: Fixed,
    from: Fixed,
    apart: bool,
    own_mass: Fixed,
) -> (r: Fixed)
    ensures
        r == spec_directed_pull(gravity, gap, distance, at, from, apart, own_mass),
{
    if at.raw == from.raw && apart {
        Fixed::from_int(0)
    } else {
        axis_pull(gravity, gap, distance, at.raw > from.raw, own_mass)
    }
}

/// The pull under the mass-weighted law on a body of mass `own_mass` at `at`
/// from a body of mass `from_mass` at `from`.
pub open spec fn spec_weighted_pull(
    g: Fixed,
    at: Vector,
    own_mass: Fixed,
    from: Vector,
    from_mass: Fixed,
) -> Vector {
    let abs_x = gap(at.x, from.x);
    let abs_y = gap(at.y, from.y);
    let distance = Fixed::from_int(1).max(abs_x.hypot(abs_y));
    let gravity = g.times(from_mass).over_square(distance);
    Vector {
        x: directed_pull(
            gravity,
            abs_x,
            distance,
            at.x,
            from.x,
            at.y.raw != from.y.raw,
            own_mass,
        ),
        y: directed_pull(
            gravity,
            abs_y,
            distance,
            at.y,
            from.y,
            at.x.raw != from.x.raw,
            own_mass,
        ),
    }
}

/// The change of velocity that a body of mass `own_mass` at `at` gets under
/// the mass-weighted law from a body of mass `from_mass` at `from`.
///
/// The gap on each axis and the distance are taken as at least one. The
/// attraction is `g * from_mass / distance^2`; each axis gets the share
/// `gap / distance` of it, pointed at the other body and divided by
/// `own_mass`. Two bodies that are level on one axis and apart on the other
/// do not pull each other along the axis on which they are level. Two bodies
/// at one place pull each other forward on both axes.
#[verifier::when_used_as_spec(spec_weighted_pull)]
pub fn weighted_pull(g: Fixed, at: Vector, own_mass: Fixed, from: Vector, from_mass: Fixed) -> (pull:
    Vector)
    ensures
        pull == spec_weighted_pull(g, at, own_mass, from, from_mass),
{
    let abs_x = gap(at.x, from.x);
    let abs_y = gap(at.y, from.y);
    let distance = Fixed::from_int(1).max(abs_x.hypot(abs_y));
    let gravity = g.times(from_mass).over_square(distance);
    Vector {
        x: directed_pull(
            gravity,
            abs_x,
            distance,
            at.x,
            from.x,
            at.y.raw != from.y.raw,
            own_mass,
        ),
        y: directed_pull(
            gravity,
            abs_y,
            distance,
            at.y,
            from.y,
            at.x.raw != from.x.raw,
            own_mass,
        ),
    }
}

/// The pull under `law`.
pub open spec fn spec_pull(
    law: ForceLaw,
    g: Fixed,
    at: Vector,
    own_mass: Fixed,
    from: Vector,
    from_mass: Fixed,
) -> Vector {
    match law {
        ForceLaw::Simple => simple_pull(g, at, from),
        ForceLaw::MassWeighted => weighted_pull(g, at, own_mass, from, from_mass),
    }
}

/// The change of velocity that a body of mass `own_mass` at `at` gets under
/// `law` from a body of mass `from_mass` at `from`.
#[verifier::when_used_as_spec(spec_pull)]
pub fn pull(
    law: ForceLaw,
    g: Fixed,
    at: Vector,
    own_mass: Fixed,
    from: Vector,
    from_mass: Fixed,
) -> (pull: Vector)
    ensures
        pull == spec_pull(law, g, at, own_mass, from, from_mass),
{
    match law {
        ForceLaw::Simple => simple_pull(g, at, from),
        ForceLaw::MassWeighted => weighted_pull(g, at, own_mass, from, from_mass),
    }
}

/// A gap is at least one, and the same from either end.
pub proof fn lemma_gap(a: Fixed, b: Fixed)
    ensures
        gap(a, b).raw >= SCALE,
        gap(a, b) == gap(b, a),
{
}

/// The distance over two gaps is more than one, and at least either gap.
pub proof fn lemma_distance(abs_x: Fixed, abs_y: Fixed)
    requires
        abs_x.raw >= SCALE,
        abs_y.raw >= SCALE,
    ensures
        Fixed::from_int(1).max(abs_x.hypot(abs_y)).raw > SCALE,
        Fixed::from_int(1).max(abs_x.hypot(abs_y)).raw >= abs_x.raw,
        Fixed::from_int(1).max(abs_x.hypot(abs_y)).raw >= abs_y.raw,
{
    let x = abs_x.raw as int;
    let y = abs_y.raw as int;
    let n = (x * x + y * y) as nat;
    assert(x * x >= SCALE * SCALE && y * y >= SCALE * SCALE && x * x >= 0 && y * y >= 0)
        by (nonlinear_arith)
        requires
            x >= SCALE,
            y >= SCALE,
    ;
    assert((SCALE + 1) * (SCALE + 1) <= 2 * (SCALE * SCALE)) by (nonlinear_arith)
        requires
            SCALE == 4294967296,
    ;
    lemma_floor_sqrt_at_least((SCALE + 1) as nat, n);
    lemma_floor_sqrt_at_least(x as nat, n);
    lemma_floor_sqrt_at_least(y as nat, n);
}

/// The share of a gap in a distance that is at least the gap lies from zero
/// to one.
pub proof fn lemma_share_of_distance(gap: Fixed, distance: Fixed)
    requires
        0 <= gap.raw <= distance.raw,
        0 < distance.raw,
    ensures
        0 <= gap.over(distance).raw <= SCALE,
{
    let a = gap.raw as int;
    let d = distance.raw as int;
    lemma_quotient(a * SCALE, d);
    assert(a * SCALE >= 0 && a * SCALE <= d * SCALE) by (nonlinear_arith)
        requires
            0 <= a <= d,
            SCALE > 0,
    ;
    let q = quotient(a * SCALE, d);
    assert(q <= SCALE) by (nonlinear_arith)
        requires
            q >= 0,
            q * d <= a * SCALE,
            a * SCALE <= d * SCALE,
            d > 0,
    ;
}

/// Under the mass-weighted law with a constant that is not negative, a
/// body is never pushed away from the one that pulls it: on each axis the
/// pull points at the other body or is zero. Where the two share a
/// coordinate, the pull on that axis is zero, or forward if they are at one
/// place.
pub proof fn lemma_pull_points_at_source(
    g: Fixed,
    at: Vector,
    own_mass: Fixed,
    from: Vector,
    from_mass: Fixed,
)
    requires
        g.raw >= 0,
        own_mass.raw > 0,
        from_mass.raw > 0,
    ensures
        at.x.raw <= from.x.raw ==> weighted_pull(g, at, own_mass, from, from_mass).x.raw >= 0,
        at.x.raw > from.x.raw ==> weighted_pull(g, at, own_mass, from, from_mass).x.raw <= 0,
        at.y.raw <= from.y.raw ==> weighted_pull(g, at, own_mass, from, from_mass).y.raw >= 0,
        at.y.raw > from.y.raw ==> weighted_pull(g, at, own_mass, from, from_mass).y.raw <= 0,
{
    let abs_x = gap(at.x, from.x);
    let abs_y = gap(at.y, from.y);
    let distance = Fixed::from_int(1).max(abs_x.hypot(abs_y));
    lemma_distance(abs_x, abs_y);
    lemma_times_sign(g, from_mass);
    lemma_over_square_sign(g.times(from_mass), distance);
    let gravity = g.times(from_mass).over_square(distance);
    assert(gravity.raw >= 0);
    lemma_axis_sign(gravity, abs_x, distance, at.x.raw > from.x.raw, own_mass);
    lemma_axis_sign(gravity, abs_y, distance, at.y.raw > from.y.raw, own_mass);
}

/// One axis of a pull that attracts points backward or forward as asked,
/// or is zero.
proof fn lemma_axis_sign(gravity: Fixed, gap: Fixed, distance: Fixed, backward: bool, own_mass: Fixed)
    requires
        gravity.raw >= 0,
        0 <= gap.raw,
        0 < distance.raw,
        own_mass.raw > 0,
    ensures
        backward ==> axis_pull(gravity, gap, distance, backward, own_mass).raw <= 0,
        !backward ==> axis_pull(gravity, gap, distance, backward, own_mass).raw >= 0,
{
    let signed = if backward {
        gravity.negated()
    } else {
        gravity
    };
    lemma_over_sign(gap, distance);
    lemma_times_sign(signed, gap.over(distance));
    lemma_over_sign(signed.times(gap.over(distance)), own_mass);
}

/// Whether the attraction `g * from_mass` is strong enough, for the mass it
/// acts on, to be felt by a body no more than `reach` away on either axis.
/// In numbers: the attraction is at least about `8 * reach^3 * (own_mass + 1)`
/// units of 2^-32. The bound allows for the three roundings between the
/// attraction and the pull.
pub open spec fn strong_enough(g: Fixed, own_mass: Fixed, from_mass: Fixed, reach: int) -> bool {
    &&& 1 <= reach
    &&& 2 * reach < SCALE
    &&& g.times(from_mass).raw * (SCALE - 2 * reach) >= (2 * reach) * (2 * reach) * (2 * reach)
        * (own_mass.raw + SCALE) + (2 * reach) * (2 * reach) * SCALE
}

/// One axis of a pull is not rounded to nothing where the attraction is
/// large enough for the mass it acts on and for the span of the distance.
proof fn lemma_axis_felt(
    gravity: Fixed,
    gap: Fixed,
    distance: Fixed,
    backward: bool,
    own_mass: Fixed,
    attraction: int,
    span: int,
)
    requires
        SCALE <= gap.raw <= distance.raw < span * SCALE,
        1 <= span < SCALE,
        own_mass.raw > 0,
        gravity.raw >= 0,
        (gravity.raw + 1) * (span * span) > attraction,
        attraction * (SCALE - span) >= span * span * span * (own_mass.raw + SCALE) + span * span
            * SCALE,
    ensures
        backward ==> axis_pull(gravity, gap, distance, backward, own_mass).raw < 0,
        !backward ==> axis_pull(gravity, gap, distance, backward, own_mass).raw > 0,
{
    let big = gravity.raw as int;
    let a = gap.raw as int;
    let d = distance.raw as int;
    let m = own_mass.raw as int;
    let unit = SCALE as int;
    let square = span * span;
    let cube = span * span * span;
    let share = gap.over(distance).raw as int;
    lemma_share_of_distance(gap, distance);
    assert(square >= 1 && cube >= 1 && cube == square * span) by (nonlinear_arith)
        requires
            span >= 1,
            square == span * span,
            cube == span * span * span,
    ;

    // The share times the span is nearly one.
    let full = a * unit;
    assert(full >= unit * unit) by (nonlinear_arith)
        requires
            full == a * unit,
            a >= unit,
            unit > 0,
    ;
    assert(share == full / d);
    assert((share + 1) * d > full) by (nonlinear_arith)
        requires
            share == full / d,
            d > 0,
    ;
    assert((share + 1) * span > unit) by (nonlinear_arith)
        requires
            (share + 1) * d > full,
            full >= unit * unit,
            0 < d < span * unit,
            unit > 0,
            share >= 0,
    ;
    let across = share * span;
    assert(across >= unit - span + 1) by (nonlinear_arith)
        requires
            across == share * span,
            (share + 1) * span > unit,
    ;

    // The attraction times the square of the span is nearly the constant
    // times the mass that pulls.
    let spread = big * square;
    assert(spread >= attraction - square + 1) by (nonlinear_arith)
        requires
            spread == big * square,
            (big + 1) * square > attraction,
    ;
    assert(attraction >= square) by (nonlinear_arith)
        requires
            attraction * (unit - span) >= cube * (m + unit) + square * unit,
            cube >= 1,
            square >= 1,
            m > 0,
            0 < span < unit,
    ;

    // The pull on the axis before it is divided by the mass.
    let p = big * share;
    let q = quotient(p, unit);
    lemma_quotient(p, unit);
    lemma_magnitude_of_product(big, share);
    assert(q == p / unit);
    assert(q <= big) by (nonlinear_arith)
        requires
            q == p / unit,
            p == big * share,
            0 <= share <= unit,
            big >= 0,
            unit > 0,
    ;
    assert((q + 1) * unit > p) by (nonlinear_arith)
        requires
            q == p / unit,
            unit > 0,
    ;
    assert(gravity.times(gap.over(distance)).raw == q);
    assert(gravity.negated().raw == -big);
    assert((-big) * share == -p);
    assert(gravity.negated().times(gap.over(distance)).raw == -q);

    // It is more than the mass, so the quotient is not zero.
    assert(p * cube == spread * across) by (nonlinear_arith)
        requires
            p == big * share,
            spread == big * square,
            across == share * span,
            cube == square * span,
    ;
    let least = (attraction - square) * (unit - span);
    assert(spread * across >= least) by (nonlinear_arith)
        requires
            spread >= attraction - square + 1,
            across >= unit - span + 1,
            attraction >= square,
            unit > span,
            least == (attraction - square) * (unit - span),
    ;
    assert(least == attraction * (unit - span) - square * unit + cube) by (nonlinear_arith)
        requires
            least == (attraction - square) * (unit - span),
            cube == square * span,
    ;
    let reached = q * unit;
    assert(reached * cube >= p * cube - unit * cube + cube) by (nonlinear_arith)
        requires
            reached == q * unit,
            (q + 1) * unit > p,
            cube >= 1,
    ;
    assert(reached * cube > m * cube) by (nonlinear_arith)
        requires
            reached * cube >= p * cube - unit * cube + cube,
            p * cube == spread * across,
            spread * across >= least,
            least == attraction * (unit - span) - square * unit + cube,
            attraction * (unit - span) >= cube * (m + unit) + square * unit,
            cube >= 1,
    ;
    assert(reached > m) by (nonlinear_arith)
        requires
            reached * cube > m * cube,
            cube >= 1,
    ;
    let e = quotient(q * unit, m);
    lemma_quotient(q * unit, m);
    assert(e >= 1) by (nonlinear_arith)
        requires
            e == reached / m,
            reached > m,
            m > 0,
    ;
    assert((-q) * unit == -(q * unit));
}

/// Under the mass-weighted law a body within reach of an attraction that is
/// strong enough feels it: where the two lie no more than `reach` apart on
/// either axis and `strong_enough` holds for that reach, the pull on each
/// axis where the two differ is not rounded to nothing, and points at the
/// other body. So the sun of `model`, of mass 10000, moves every star that
/// is within 2200 of it on both axes.
pub proof fn lemma_pull_is_felt(
    g: Fixed,
    at: Vector,
    own_mass: Fixed,
    from: Vector,
    from_mass: Fixed,
    reach: int,
)
    requires
        own_mass.raw > 0,
        gap(at.x, from.x).raw <= reach * SCALE,
        gap(at.y, from.y).raw <= reach * SCALE,
        strong_enough(g, own_mass, from_mass, reach),
    ensures
        at.x.raw < from.x.raw ==> weighted_pull(g, at, own_mass, from, from_mass).x.raw > 0,
        at.x.raw > from.x.raw ==> weighted_pull(g, at, own_mass, from, from_mass).x.raw < 0,
        at.y.raw < from.y.raw ==> weighted_pull(g, at, own_mass, from, from_mass).y.raw > 0,
        at.y.raw > from.y.raw ==> weighted_pull(g, at, own_mass, from, from_mass).y.raw < 0,
{
    let abs_x = gap(at.x, from.x);
    let abs_y = gap(at.y, from.y);
    lemma_gap(at.x, from.x);
    lemma_gap(at.y, from.y);
    let distance = Fixed::from_int(1).max(abs_x.hypot(abs_y));
    lemma_distance(abs_x, abs_y);
    let unit = SCALE as int;
    let span = 2 * reach;
    let x = abs_x.raw as int;
    let y = abs_y.raw as int;
    let n = (x * x + y * y) as nat;
    let root = floor_sqrt(n) as int;
    lemma_floor_sqrt_bounds(n);
    let far = span * unit;
    assert(0 <= x * x + y * y < far * far) by (nonlinear_arith)
        requires
            0 < x <= reach * unit,
            0 < y <= reach * unit,
            far == (2 * reach) * unit,
            unit > 0,
    ;
    assert(root < far) by (nonlinear_arith)
        requires
            root >= 0,
            root * root <= n,
            n < far * far,
            far > 0,
    ;
    let d = distance.raw as int;
    assert(unit < d <= root);

    let attraction = g.times(from_mass);
    let top = attraction.raw as int;
    let square = span * span;
    let cube = span * span * span;
    assert(square >= 1 && cube >= 1) by (nonlinear_arith)
        requires
            span >= 2,
            square == span * span,
            cube == span * span * span,
    ;
    assert(top >= 1) by (nonlinear_arith)
        requires
            top * (unit - span) >= cube * (own_mass.raw + unit) + square * unit,
            cube >= 1,
            square >= 1,
            own_mass.raw > 0,
            0 < span < unit,
    ;

    // Over the square of the distance the attraction is still nearly that of
    // the span.
    let gravity = attraction.over_square(distance);
    let spread = d * d;
    assert(0 < spread < square * (unit * unit)) by (nonlinear_arith)
        requires
            spread == d * d,
            0 < d < span * unit,
            square == span * span,
    ;
    let carried = top * unit * unit;
    assert(carried == top * (unit * unit) && carried >= 0) by (nonlinear_arith)
        requires
            carried == top * unit * unit,
            top >= 1,
            unit > 0,
    ;
    let q = quotient(carried, spread);
    assert(q == carried / spread);
    assert((q + 1) * spread > carried && q >= 0) by (nonlinear_arith)
        requires
            q == carried / spread,
            carried >= 0,
            spread > 0,
    ;
    assert((q + 1) * square > top) by (nonlinear_arith)
        requires
            (q + 1) * spread > carried,
            carried == top * (unit * unit),
            0 < spread < square * (unit * unit),
            q >= 0,
            unit > 0,
    ;
    assert((gravity.raw + 1) * square > top) by {
        if q > i64::MAX {
            assert((i64::MAX + 1) * square > top) by (nonlinear_arith)
                requires
                    square >= 1,
                    top <= i64::MAX,
            ;
        }
    }
    if at.x.raw != from.x.raw {
        lemma_axis_felt(gravity, abs_x, distance, at.x.raw > from.x.raw, own_mass, top, span);
    }
    if at.y.raw != from.y.raw {
        lemma_axis_felt(gravity, abs_y, distance, at.y.raw > from.y.raw, own_mass, top, span);
    }
}

/// One axis of a pull is the same size backward as forward, where the
/// attraction is small enough for the mass it acts on that nothing saturates.
proof fn lemma_axis_opposite(gravity: Fixed, gap: Fixed, distance: Fixed, own_mass: Fixed)
    requires
        gravity.raw > i64::MIN,
        0 <= gap.over(distance).raw <= SCALE,
        own_mass.raw > 0,
        magnitude_of(gravity.raw as int) * SCALE < 0x8000_0000_0000_0000 * own_mass.raw,
    ensures
        axis_pull(gravity, gap, distance, true, own_mass).raw == -axis_pull(
            gravity,
            gap,
            distance,
            false,
            own_mass,
        ).raw,
{
    let big = magnitude_of(gravity.raw as int);
    let share = gap.over(distance).raw as int;
    let m = own_mass.raw as int;
    let p = gravity.raw * share;
    let q = quotient(p, SCALE as int);
    lemma_quotient(p, SCALE as int);
    lemma_magnitude_of_product(gravity.raw as int, share);
    assert(magnitude_of(q) <= big) by (nonlinear_arith)
        requires
            magnitude_of(q) * SCALE <= big * share,
            0 <= share <= SCALE,
            big >= 0,
            SCALE > 0,
            magnitude_of(q) >= 0,
    ;
    assert(gravity.times(gap.over(distance)).raw == q);
    assert(gravity.negated().raw == -gravity.raw);
    assert(gravity.negated().times(gap.over(distance)).raw == -q);
    let e = quotient(q * SCALE, m);
    lemma_quotient(q * SCALE, m);
    lemma_magnitude_of_product(q, SCALE as int);
    assert(magnitude_of(e) < 0x8000_0000_0000_0000) by (nonlinear_arith)
        requires
            magnitude_of(e) * m <= magnitude_of(q) * SCALE,
            magnitude_of(q) <= big,
            big * SCALE < 0x8000_0000_0000_0000 * m,
            m > 0,
            SCALE > 0,
            magnitude_of(e) >= 0,
            magnitude_of(q) >= 0,
    ;
    assert((-q) * SCALE == -(q * SCALE));
}

/// Two bodies of one mass at different places pull each other by as much
/// in opposite directions, under the mass-weighted law.
pub proof fn lemma_pulls_opposite(g: Fixed, mass: Fixed, a: Vector, b: Vector)
    requires
        mass.raw > 0,
        a.x.raw != b.x.raw || a.y.raw != b.y.raw,
    ensures
        weighted_pull(g, a, mass, b, mass).x.raw == -weighted_pull(g, b, mass, a, mass).x.raw,
        weighted_pull(g, a, mass, b, mass).y.raw == -weighted_pull(g, b, mass, a, mass).y.raw,
{
    let abs_x = gap(a.x, b.x);
    let abs_y = gap(a.y, b.y);
    lemma_gap(a.x, b.x);
    lemma_gap(a.y, b.y);
    let distance = Fixed::from_int(1).max(abs_x.hypot(abs_y));
    lemma_distance(abs_x, abs_y);
    let d = distance.raw as int;
    let m = mass.raw as int;
    let attraction = g.times(mass);
    let gravity = attraction.over_square(distance);

    // The attraction is no more than the constant times the mass.
    let q0 = quotient(g.raw * mass.raw, SCALE as int);
    lemma_quotient(g.raw * mass.raw, SCALE as int);
    lemma_magnitude_of_product(g.raw as int, m);
    let top = magnitude_of(attraction.raw as int);
    assert(top <= magnitude_of(q0));
    let carried = top * SCALE;
    assert(0 <= carried <= 0x8000_0000_0000_0000 * m) by (nonlinear_arith)
        requires
            carried == top * SCALE,
            0 <= top <= magnitude_of(q0),
            magnitude_of(q0) * SCALE <= magnitude_of(g.raw as int) * m,
            magnitude_of(g.raw as int) <= 0x8000_0000_0000_0000,
            m > 0,
            SCALE > 0,
    ;

    // The distance squared is more than one.
    let spread = d * d;
    assert(spread > SCALE * SCALE) by (nonlinear_arith)
        requires
            spread == d * d,
            d > SCALE,
            SCALE > 0,
    ;

    // So the pull per unit of mass is less than the constant.
    let q1 = quotient(attraction.raw * SCALE * SCALE, spread);
    lemma_quotient(attraction.raw * SCALE * SCALE, spread);
    lemma_magnitude_of_product(attraction.raw as int, SCALE as int);
    lemma_magnitude_of_product(attraction.raw * SCALE, SCALE as int);
    assert(magnitude_of(attraction.raw * SCALE * SCALE) == carried * SCALE);
    let big = magnitude_of(gravity.raw as int);
    assert(big <= magnitude_of(q1));
    assert(big * spread <= carried * SCALE) by (nonlinear_arith)
        requires
            0 <= big <= magnitude_of(q1),
            magnitude_of(q1) * spread <= carried * SCALE,
            spread > 0,
    ;
    assert(big * SCALE < 0x8000_0000_0000_0000 * m) by (nonlinear_arith)
        requires
            big >= 0,
            big * spread <= carried * SCALE,
            0 <= carried <= 0x8000_0000_0000_0000 * m,
            spread > SCALE * SCALE,
            SCALE > 0,
            m > 0,
    ;
    assert(big < 0x8000_0000_0000_0000) by (nonlinear_arith)
        requires
            big >= 0,
            big * spread <= carried * SCALE,
            carried == top * SCALE,
            0 <= top <= 0x8000_0000_0000_0000,
            spread > SCALE * SCALE,
            SCALE > 0,
    ;
    lemma_share_of_distance(abs_x, distance);
    lemma_share_of_distance(abs_y, distance);
    lemma_axis_opposite(gravity, abs_x, distance, mass);
    lemma_axis_opposite(gravity, abs_y, distance, mass);
}

} // verus!
