use gravity_sim::fixed::Fixed;
use gravity_sim::force::{
    axis_pull, directed_pull, gap, pull, simple_pull, weighted_pull, ForceLaw,
};
use gravity_sim::vector::Vector;

fn raw(raw: i64) -> Fixed {
    Fixed { raw }
}

fn at(x: i32, y: i32) -> Vector {
    Vector::new(Fixed::from_int(x), Fixed::from_int(y))
}

fn raw_pair(x: i64, y: i64) -> Vector {
    Vector { x: raw(x), y: raw(y) }
}

#[test]
fn default_constants_go_with_the_laws() {
    assert_eq!(ForceLaw::Simple.default_g(), Fixed::from_int(2));
    assert_eq!(ForceLaw::MassWeighted.default_g(), Fixed::from_int(1));
}

#[test]
fn gap_is_at_least_one() {
    assert_eq!(gap(Fixed::from_int(7), Fixed::from_int(3)), Fixed::from_int(4));
    assert_eq!(gap(Fixed::from_int(3), Fixed::from_int(7)), Fixed::from_int(4));
    assert_eq!(gap(Fixed::from_int(3), Fixed::from_int(3)), Fixed::from_int(1));
    assert_eq!(gap(Fixed::half(), raw(0)), Fixed::from_int(1));
    assert_eq!(gap(raw(i64::MIN), raw(i64::MAX)), raw(i64::MAX));
}

#[test]
fn axis_pull_points_as_asked() {
    let one = Fixed::from_int(1);
    // 20 * (3 / 5) / 300 = 0.04
    let forward = axis_pull(Fixed::from_int(20), Fixed::from_int(3), Fixed::from_int(5), false, Fixed::from_int(300));
    let backward = axis_pull(Fixed::from_int(20), Fixed::from_int(3), Fixed::from_int(5), true, Fixed::from_int(300));
    assert_eq!(forward, raw(171798691));
    assert_eq!(backward, raw(-171798691));
    assert_eq!(axis_pull(one, one, one, false, one), one);
}

#[test]
fn weighted_pull_has_the_inverse_square_value() {
    // Distance 5, attraction 500 / 25 = 20, shares 3/5 and 4/5, mass 300.
    let delta = weighted_pull(Fixed::from_int(1), at(0, 0), Fixed::from_int(300), at(3, 4), Fixed::from_int(500));
    assert_eq!(delta, raw_pair(171798691, 229064922));
    let back = weighted_pull(Fixed::from_int(1), at(3, 4), Fixed::from_int(500), at(0, 0), Fixed::from_int(300));
    // Attraction 300 / 25 = 12, shares as before, mass 500.
    assert_eq!(back, raw_pair(-61847529, -82463372));
}

#[test]
fn weighted_pull_scales_with_the_constant() {
    let once = weighted_pull(Fixed::from_int(1), at(0, 0), Fixed::from_int(300), at(30, 40), Fixed::from_int(500));
    let twice = weighted_pull(Fixed::from_int(2), at(0, 0), Fixed::from_int(300), at(30, 40), Fixed::from_int(500));
    assert!(once.x.raw > 0 && once.y.raw > 0);
    assert!((twice.x.raw - 2 * once.x.raw).abs() <= 2);
    assert!((twice.y.raw - 2 * once.y.raw).abs() <= 2);
}

#[test]
fn weighted_pull_takes_gaps_and_distance_as_at_least_one() {
    // A body at the very place of the other: both gaps count as one, the
    // distance as the square root of two, and the pull points forward.
    let delta = weighted_pull(Fixed::from_int(1), at(7, 7), Fixed::from_int(300), at(7, 7), Fixed::from_int(300));
    assert_eq!(delta, raw_pair(1518500250, 1518500250));
}

#[test]
fn weighted_pull_leaves_out_the_axis_on_which_two_bodies_are_level() {
    let mass = Fixed::from_int(300);
    let upper = weighted_pull(Fixed::from_int(1), at(0, 5), mass, at(0, -5), mass);
    let lower = weighted_pull(Fixed::from_int(1), at(0, -5), mass, at(0, 5), mass);
    assert_eq!(upper, raw_pair(0, -42313388));
    assert_eq!(lower, raw_pair(0, 42313388));
    let left = weighted_pull(Fixed::from_int(1), at(-5, 0), mass, at(5, 0), mass);
    let right = weighted_pull(Fixed::from_int(1), at(5, 0), mass, at(-5, 0), mass);
    assert_eq!(left, raw_pair(42313388, 0));
    assert_eq!(right, raw_pair(-42313388, 0));
}

#[test]
fn directed_pull_points_at_the_other_body() {
    let gravity = Fixed::from_int(20);
    let gap = Fixed::from_int(3);
    let distance = Fixed::from_int(5);
    let mass = Fixed::from_int(300);
    let low = Fixed::from_int(-1);
    let high = Fixed::from_int(2);
    for apart in [false, true] {
        assert_eq!(directed_pull(gravity, gap, distance, low, high, apart, mass), raw(171798691));
        assert_eq!(directed_pull(gravity, gap, distance, high, low, apart, mass), raw(-171798691));
    }
    assert_eq!(directed_pull(gravity, gap, distance, low, low, true, mass), raw(0));
    assert_eq!(directed_pull(gravity, gap, distance, low, low, false, mass), raw(171798691));
}

#[test]
fn weighted_pull_is_opposite_for_equal_masses() {
    let mass = Fixed::from_int(300);
    let on_first = weighted_pull(Fixed::from_int(1), at(-100, -50), mass, at(100, 50), mass);
    let on_second = weighted_pull(Fixed::from_int(1), at(100, 50), mass, at(-100, -50), mass);
    assert_eq!(on_first, raw_pair(76830, 38415));
    assert_eq!(on_second, raw_pair(-76830, -38415));
}

#[test]
fn weighted_pull_points_at_the_heavy_body() {
    let delta = weighted_pull(Fixed::from_int(1), at(30, -40), Fixed::from_int(250), at(0, 0), Fixed::from_int(10000));
    assert_eq!(delta, raw_pair(-41231686, 54975581));
}

#[test]
fn weighted_pull_rounds_to_nothing_far_away() {
    let delta = weighted_pull(Fixed::from_int(1), at(0, 0), Fixed::from_int(200), at(10000000, 0), Fixed::from_int(10000));
    assert_eq!(delta, Vector::zero());
}

#[test]
fn simple_pull_is_the_constant_over_the_gap() {
    let delta = simple_pull(Fixed::from_int(2), at(1, 2), at(5, -2));
    assert_eq!(delta, Vector::new(Fixed::half(), Fixed::half().negated()));
}

#[test]
fn simple_pull_saturates_where_the_gap_is_zero() {
    let delta = simple_pull(Fixed::from_int(2), at(0, 0), at(0, 3));
    assert_eq!(delta, raw_pair(i64::MAX, 2863311530));
    let none = simple_pull(Fixed::from_int(0), at(0, 0), at(0, 3));
    assert_eq!(none, Vector::zero());
}

#[test]
fn pull_follows_the_law() {
    let g = Fixed::from_int(1);
    let m = Fixed::from_int(300);
    let n = Fixed::from_int(500);
    assert_eq!(pull(ForceLaw::Simple, g, at(0, 0), m, at(3, 4), n), simple_pull(g, at(0, 0), at(3, 4)));
    assert_eq!(
        pull(ForceLaw::MassWeighted, g, at(0, 0), m, at(3, 4), n),
        weighted_pull(g, at(0, 0), m, at(3, 4), n)
    );
    assert_ne!(
        pull(ForceLaw::Simple, g, at(0, 0), m, at(3, 4), n),
        pull(ForceLaw::MassWeighted, g, at(0, 0), m, at(3, 4), n)
    );
}

#[test]
fn no_constant_no_pull() {
    let zero = Fixed::from_int(0);
    let m = Fixed::from_int(300);
    for law in [ForceLaw::Simple, ForceLaw::MassWeighted] {
        assert_eq!(pull(law, zero, at(0, 0), m, at(3, 4), m), Vector::zero());
        assert_eq!(pull(law, zero, at(3, 4), m, at(3, 4), m), Vector::zero());
        assert_eq!(pull(law, zero, at(-9, 4), m, at(3, -4000), Fixed::from_int(10000)), Vector::zero());
    }
}

#[test]
fn vector_plus_adds_each_coordinate() {
    assert_eq!(at(1, 2).plus(at(-5, 9)), at(-4, 11));
    assert_eq!(raw_pair(i64::MAX, 0).plus(raw_pair(1, -1)), raw_pair(i64::MAX, -1));
    assert_eq!(Vector::zero().plus(at(3, 4)), at(3, 4));
}

#[test]
fn the_sun_is_felt_by_a_star_within_2200() {
    let g = Fixed::from_int(1);
    let star = Fixed::from_int(500);
    let sun = Fixed::from_int(10000);
    assert_eq!(weighted_pull(g, at(2200, 2200), star, at(0, 0), sun), raw_pair(-6274, -6274));
    assert_eq!(weighted_pull(g, at(-2200, 2200), star, at(0, 0), sun), raw_pair(6274, -6274));
    assert_eq!(weighted_pull(g, at(2200, 1), star, at(0, 0), sun), raw_pair(-17747, -8));
    // It is felt beyond that too; the reach only says where it is certain.
    assert_eq!(weighted_pull(g, at(10000, 10000), star, at(0, 0), sun), raw_pair(-303, -303));
}
