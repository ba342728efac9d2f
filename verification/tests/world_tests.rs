use gravity_sim::boundary::Boundary;
use gravity_sim::fixed::{Fixed, HALF, SCALE};
use gravity_sim::force::ForceLaw;
use gravity_sim::particle::Particle;
use gravity_sim::vector::Vector;
use gravity_sim::world::{model, scatter, stars_from, world_from, StarDraws, World, STARS};

fn raw(raw: i64) -> Fixed {
    Fixed { raw }
}

fn whole(n: i32) -> Fixed {
    Fixed::from_int(n)
}

fn raw_pair(x: i64, y: i64) -> Vector {
    Vector { x: raw(x), y: raw(y) }
}

fn body(x: i32, y: i32, mass: i32, velocity: Vector) -> Particle {
    Particle::new_particle(whole(x), whole(y), whole(mass), velocity).unwrap()
}

fn window() -> Boundary {
    Boundary::new(whole(-1000), whole(1000), whole(800), whole(-800)).unwrap()
}

fn weighted(particles: Vec<Particle>) -> World {
    World::new(ForceLaw::MassWeighted, whole(1), particles)
}

fn state(world: &World) -> Vec<(Vector, Vector, Fixed)> {
    world.particles().iter().map(|p| (p.position(), p.velocity(), p.mass())).collect()
}

#[test]
fn new_world_holds_what_it_is_given() {
    let world = World::new(ForceLaw::Simple, whole(2), vec![body(1, 2, 300, raw_pair(3, 4))]);
    assert_eq!(world.law(), ForceLaw::Simple);
    assert_eq!(world.g(), whole(2));
    assert_eq!(state(&world), vec![(Vector::new(whole(1), whole(2)), raw_pair(3, 4), whole(300))]);
}

#[test]
fn two_equal_bodies_at_opposite_places_change_velocity_oppositely() {
    let mut world = weighted(vec![body(-100, -50, 300, Vector::zero()), body(100, 50, 300, Vector::zero())]);
    world.step(&window());
    assert_eq!(
        state(&world),
        vec![
            (raw_pair(-429496652770, -214748326385), raw_pair(76830, 38415), whole(300)),
            (raw_pair(429496652770, 214748326385), raw_pair(-76830, -38415), whole(300)),
        ]
    );
}

#[test]
fn opposite_changes_do_not_depend_on_the_velocities_before() {
    let first = raw_pair(SCALE / 4, -(SCALE / 8));
    let second = raw_pair(SCALE / 3, SCALE / 5);
    let mut world = weighted(vec![body(-100, -50, 300, first), body(100, 50, 300, second)]);
    world.step(&window());
    let after = state(&world);
    assert_eq!(after[0].1, raw_pair(1073818654, -536832497));
    assert_eq!(after[1].1, raw_pair(1431578935, 858955044));
    assert_eq!(after[0].1.x.raw - first.x.raw, -(after[1].1.x.raw - second.x.raw));
    assert_eq!(after[0].1.y.raw - first.y.raw, -(after[1].1.y.raw - second.y.raw));
    assert_eq!(after[0].0, raw_pair(-428422910946, -215285197297));
    assert_eq!(after[1].0, raw_pair(430928308535, 215607319844));
}

#[test]
fn a_body_at_rest_falls_toward_the_anchor() {
    let mut world = weighted(vec![body(30, -40, 250, Vector::zero()), body(0, 0, 10000, Vector::zero())]);
    world.step(&window());
    let after = state(&world);
    // The anchor lies to the left and above.
    assert!(after[0].1.x.raw < 0 && after[0].1.y.raw > 0);
    assert_eq!(after[0].1, raw_pair(-41231686, 54975581));
    assert_eq!(after[0].0, raw_pair(128807787194, -171743716259));
    // The anchor is pulled too, by much less.
    assert_eq!(after[1].1, raw_pair(25769, -34359));
    assert_eq!(after[1].0, raw_pair(25769, -34359));
}

#[test]
fn a_lone_body_at_rest_stays() {
    for law in [ForceLaw::Simple, ForceLaw::MassWeighted] {
        let mut world = World::new(law, law.default_g(), vec![body(12, -7, 321, Vector::zero())]);
        for _ in 0..100 {
            world.step(&window());
        }
        assert_eq!(state(&world), vec![(Vector::new(whole(12), whole(-7)), Vector::zero(), whole(321))]);
    }
}

#[test]
fn a_lone_body_at_rest_outside_the_window_stays_too() {
    let mut world = weighted(vec![body(5000, 5000, 10, Vector::zero())]);
    for _ in 0..10 {
        world.step(&window());
    }
    assert_eq!(state(&world), vec![(Vector::new(whole(5000), whole(5000)), Vector::zero(), whole(10))]);
}

#[test]
fn without_gravity_bodies_move_in_straight_lines() {
    let steps: i64 = 50;
    let velocities = [raw_pair(HALF, -HALF / 2), raw_pair(-3 * SCALE, 7), raw_pair(0, 2 * SCALE)];
    for law in [ForceLaw::Simple, ForceLaw::MassWeighted] {
        let mut world = World::new(
            law,
            whole(0),
            vec![
                body(10, 20, 200, velocities[0]),
                body(-30, 5, 450, velocities[1]),
                body(0, 0, 10000, velocities[2]),
            ],
        );
        let before = state(&world);
        for _ in 0..steps {
            world.step(&window());
        }
        let after = state(&world);
        for i in 0..3 {
            assert_eq!(after[i].1, velocities[i]);
            assert_eq!(after[i].2, before[i].2);
            assert_eq!(after[i].0.x.raw, before[i].0.x.raw + steps * velocities[i].x.raw);
            assert_eq!(after[i].0.y.raw, before[i].0.y.raw + steps * velocities[i].y.raw);
        }
    }
}

#[test]
fn a_step_reflects_a_body_that_would_cross_the_right_side() {
    let start = whole(1000).minus(Fixed::half());
    let particle = Particle::new_particle(start, whole(0), whole(300), Vector::new(whole(2), whole(0))).unwrap();
    let mut world = weighted(vec![particle]);
    world.step(&window());
    let after = state(&world);
    assert_eq!(after[0].1, Vector::new(whole(-2), whole(0)));
    assert_eq!(after[0].0.x, start.plus(whole(-2)));
    assert_eq!(after[0].0, raw_pair(4284229877760, 0));
}

fn three() -> Vec<Particle> {
    vec![
        body(10, 20, 200, raw_pair(HALF, -HALF / 2)),
        body(-30, 5, 450, raw_pair(0, SCALE)),
        body(0, 0, 10000, Vector::zero()),
    ]
}

#[test]
fn a_step_adds_the_pulls_of_all_the_others() {
    let mut world = weighted(three());
    world.step(&window());
    assert_eq!(
        state(&world),
        vec![
            (raw_pair(44900121815, 84439591287), raw_pair(1950448855, -1459754633), whole(200)),
            (raw_pair(-128746261030, 25753207955), raw_pair(102757850, 4278371475), whole(450)),
            (raw_pair(-129271, 188011), raw_pair(-129271, 188011), whole(10000)),
        ]
    );
    world.step(&window());
    assert_eq!(
        state(&world),
        vec![
            (raw_pair(46642192130, 82595714214), raw_pair(1742070315, -1843877073), whole(200)),
            (raw_pair(-128542362500, 30011882493), raw_pair(203898530, 4258674538), whole(450)),
            (raw_pair(-380001, 569556), raw_pair(-250730, 381545), whole(10000)),
        ]
    );
}

#[test]
fn a_step_under_the_simple_law() {
    let mut world = World::new(ForceLaw::Simple, whole(2), three());
    world.step(&window());
    assert_eq!(
        state(&world),
        vec![
            (raw_pair(44023414785, 83823445061), raw_pair(1073741825, -2075900859), whole(200)),
            (raw_pair(-128347939363, 24624479164), raw_pair(501079517, 3149642684), whole(450)),
            (raw_pair(572662306, 2147483647), raw_pair(572662306, 2147483647), whole(10000)),
        ]
    );
}

#[test]
fn a_step_keeps_the_law_the_constant_and_the_masses() {
    let mut world = World::new(ForceLaw::Simple, whole(7), three());
    for _ in 0..5 {
        world.step(&window());
    }
    assert_eq!(world.law(), ForceLaw::Simple);
    assert_eq!(world.g(), whole(7));
    let masses: Vec<Fixed> = world.particles().iter().map(|p| p.mass()).collect();
    assert_eq!(masses, vec![whole(200), whole(450), whole(10000)]);
}

#[test]
fn a_step_of_an_empty_world_does_nothing() {
    let mut world = weighted(Vec::new());
    world.step(&window());
    assert!(world.particles().is_empty());
}

#[test]
fn the_order_of_the_bodies_does_not_change_what_happens_to_a_pair() {
    let a = body(-100, -50, 300, Vector::zero());
    let b = body(100, 50, 300, Vector::zero());
    let mut forward = weighted(vec![a, b]);
    let mut backward = weighted(vec![b, a]);
    forward.step(&window());
    backward.step(&window());
    let one = state(&forward);
    let other = state(&backward);
    assert_eq!(one[0], other[1]);
    assert_eq!(one[1], other[0]);
}

#[test]
fn model_scatters_stars_round_a_sun() {
    let sides = Boundary::new(whole(-400), whole(400), whole(300), whole(-300)).unwrap();
    let world = model(&sides);
    assert_eq!(world.law(), ForceLaw::MassWeighted);
    assert_eq!(world.g(), whole(1));
    let bodies = state(&world);
    assert_eq!(STARS, 49);
    assert_eq!(bodies.len(), 50);
    assert_eq!(bodies[49], (Vector::zero(), Vector::zero(), whole(10000)));
    for star in &bodies[..49] {
        assert!(sides.left.raw <= star.0.x.raw && star.0.x.raw < sides.right.raw);
        assert!(sides.bottom.raw <= star.0.y.raw && star.0.y.raw < sides.top.raw);
        assert!(-HALF <= star.1.x.raw && star.1.x.raw < HALF);
        assert!(-HALF <= star.1.y.raw && star.1.y.raw < HALF);
        assert!(whole(200).raw <= star.2.raw && star.2.raw < whole(500).raw);
    }
    assert!(bodies[..49].iter().any(|star| star.0 != bodies[0].0));
}

#[test]
fn model_keeps_running() {
    let sides = Boundary::new(whole(-400), whole(400), whole(300), whole(-300)).unwrap();
    let mut world = model(&sides);
    for _ in 0..20 {
        world.step(&sides);
    }
    let bodies = state(&world);
    assert_eq!(bodies.len(), 50);
    assert_eq!(bodies[49].2, whole(10000));
}

#[test]
fn scatter_puts_as_many_stars_as_asked_inside_the_window() {
    let sides = Boundary::new(whole(10), whole(11), whole(-20), whole(-21)).unwrap();
    assert!(scatter(&sides, 0).is_empty());
    let stars = scatter(&sides, 300);
    assert_eq!(stars.len(), 300);
    for star in &stars {
        assert!(whole(10).raw <= star.position().x.raw && star.position().x.raw < whole(11).raw);
        assert!(whole(-21).raw <= star.position().y.raw && star.position().y.raw < whole(-20).raw);
        assert!(-HALF <= star.velocity().x.raw && star.velocity().x.raw < HALF);
        assert!(-HALF <= star.velocity().y.raw && star.velocity().y.raw < HALF);
        assert!(whole(200).raw <= star.mass().raw && star.mass().raw < whole(500).raw);
    }
}

#[test]
fn a_body_within_reach_is_felt() {
    // Two bodies of the least whole mass, 512 apart on each axis, still
    // move each other.
    let small = Particle::new_particle(whole(-256), whole(-256), whole(1), Vector::zero()).unwrap();
    let other = Particle::new_particle(whole(256), whole(256), whole(1), Vector::zero()).unwrap();
    let mut world = weighted(vec![small, other]);
    world.step(&window());
    let after = state(&world);
    assert_eq!(after[0].1, raw_pair(5792, 5792));
    assert_eq!(after[1].1, raw_pair(-5792, -5792));
    // Twice as far, a light body no longer moves a heavy one.
    let heavy = body(-512, -512, 100000, Vector::zero());
    let light = Particle::new_particle(whole(512), whole(512), whole(1), Vector::zero()).unwrap();
    let mut far = weighted(vec![heavy, light]);
    far.step(&window());
    assert_eq!(state(&far)[0].1, Vector::zero());
    assert!(state(&far)[1].1.x.raw < 0 && state(&far)[1].1.y.raw < 0);
}

#[test]
fn two_equal_bodies_on_one_axis_change_velocity_oppositely() {
    let sides = Boundary::new(whole(-100), whole(100), whole(50), whole(-50)).unwrap();
    let mut world = weighted(vec![body(-5, 0, 300, Vector::zero()), body(5, 0, 300, Vector::zero())]);
    world.step(&sides);
    let after = state(&world);
    assert!(after[0].1.x.raw > 0);
    assert_eq!(after[0].1.x.raw, -after[1].1.x.raw);
    assert_eq!(after[0].1.y.raw, -after[1].1.y.raw);
    assert_eq!(after[0].1, raw_pair(42313388, 0));
    assert_eq!(after[1].1, raw_pair(-42313388, 0));
    assert_eq!(after[0].0, raw_pair(-21432523092, 0));
    assert_eq!(after[1].0, raw_pair(21432523092, 0));
}

#[test]
fn two_bodies_at_one_place_are_both_pulled_forward() {
    let sides = Boundary::new(whole(-100), whole(100), whole(50), whole(-50)).unwrap();
    let mut world = weighted(vec![body(0, 0, 300, Vector::zero()), body(0, 0, 300, Vector::zero())]);
    world.step(&sides);
    let after = state(&world);
    assert_eq!(after[0].1, raw_pair(1518500250, 1518500250));
    assert_eq!(after[1].1, raw_pair(1518500250, 1518500250));
}

fn five(across: i64, up: i64, first: i64, second: i64, third: i64) -> StarDraws {
    StarDraws { across: raw(across), up: raw(up), first: raw(first), second: raw(second), third: raw(third) }
}

fn some_draws() -> Vec<StarDraws> {
    vec![
        five(0, 0, 0, 0, 0),
        five(HALF, SCALE / 4, SCALE / 4, SCALE - 1, HALF),
        five(SCALE - 1, SCALE - 1, SCALE / 8, 3 * (SCALE / 8), SCALE - 1),
        five(1, 2, 3, 4, 5),
    ]
}

#[test]
fn stars_from_makes_the_stars_that_the_draws_give() {
    let sides = Boundary::new(whole(-400), whole(400), whole(300), whole(-300)).unwrap();
    let stars = stars_from(&sides, &some_draws()).unwrap();
    let made: Vec<(Vector, Vector, Fixed)> =
        stars.iter().map(|p| (p.position(), p.velocity(), p.mass())).collect();
    assert_eq!(
        made,
        vec![
            (raw_pair(-1717986918400, -1288490188800), raw_pair(-2147483648, -2147483648), raw(858993459200)),
            (raw_pair(0, -644245094400), raw_pair(-1073741824, 2147483647), raw(1503238553600)),
            (raw_pair(1717986917600, 1288490188200), raw_pair(-1610612736, -536870912), raw(2147483647700)),
            (raw_pair(-1717986917600, -1288490187600), raw_pair(-2147483645, -2147483644), raw(858993460700)),
        ]
    );
    assert!(stars_from(&sides, &Vec::new()).unwrap().is_empty());
}

#[test]
fn stars_from_makes_nothing_if_a_star_would_have_no_mass() {
    let sides = Boundary::new(whole(-400), whole(400), whole(300), whole(-300)).unwrap();
    let mut draws = some_draws();
    draws.push(five(0, 0, 0, 0, -2863311531));
    assert!(stars_from(&sides, &draws).is_none());
    assert!(world_from(&sides, &draws).is_none());
    draws[4] = five(0, 0, 0, 0, -2863311530);
    assert_eq!(stars_from(&sides, &draws).unwrap()[4].mass(), raw(200));
}

#[test]
fn equal_draws_give_equal_worlds() {
    let sides = Boundary::new(whole(-400), whole(400), whole(300), whole(-300)).unwrap();
    let one = world_from(&sides, &some_draws()).unwrap();
    let other = world_from(&sides, &some_draws()).unwrap();
    assert_eq!(state(&one), state(&other));
    assert_eq!(one.law(), ForceLaw::MassWeighted);
    assert_eq!(one.g(), whole(1));
    let bodies = state(&one);
    assert_eq!(bodies.len(), 5);
    assert_eq!(bodies[4], (Vector::zero(), Vector::zero(), whole(10000)));
    assert_eq!(bodies[1], (raw_pair(0, -644245094400), raw_pair(-1073741824, 2147483647), raw(1503238553600)));
    let stars = stars_from(&sides, &some_draws()).unwrap();
    for i in 0..4 {
        assert_eq!(bodies[i], (stars[i].position(), stars[i].velocity(), stars[i].mass()));
    }
}

#[test]
fn star_draws_are_fractions() {
    for _ in 0..100 {
        let draws = StarDraws::draw();
        for part in [draws.across, draws.up, draws.first, draws.second, draws.third] {
            assert!(0 <= part.raw && part.raw < SCALE);
        }
    }
}
