use gravity::num::{isqrt, icbrt, sat_add, sat_div, sat_mul, sat_sub};
use gravity::planet::{Color, Planet};
use gravity::space::Space;
use gravity::vector::{Position, Velocity};

fn planet(mass: i128, x: i128, y: i128, vx: i128, vy: i128) -> Planet {
    Planet {
        mass,
        position: Position::new(x, y),
        last_position: Position::new(x, y),
        trail_color: Color::rgba(1, 2, 3, 255),
        velocity: Velocity::new(vx, vy),
    }
}

#[test]
fn sat_arithmetic_clamps_and_truncates() {
    assert_eq!(sat_add(i128::MAX, 1), i128::MAX);
    assert_eq!(sat_add(i128::MIN, -1), i128::MIN);
    assert_eq!(sat_add(3, 4), 7);
    assert_eq!(sat_sub(i128::MIN, 1), i128::MIN);
    assert_eq!(sat_sub(5, 9), -4);
    assert_eq!(sat_mul(i128::MAX, 2), i128::MAX);
    assert_eq!(sat_mul(i128::MAX, -2), i128::MIN);
    assert_eq!(sat_mul(i128::MIN, -1), i128::MAX);
    assert_eq!(sat_mul(-7, 6), -42);
    // Division truncates toward zero; MIN / -1 clamps.
    assert_eq!(sat_div(-7, 2), -3);
    assert_eq!(sat_div(7, -2), -3);
    assert_eq!(sat_div(i128::MIN, -1), i128::MAX);
    // A zero divisor is replaced by 1.
    assert_eq!(sat_div(5, 0), 5);
    assert_eq!(sat_div(-5, 0), -5);
}

#[test]
fn integer_roots() {
    assert_eq!(isqrt(0), 0);
    assert_eq!(isqrt(1), 1);
    assert_eq!(isqrt(80_999_999), 8999);
    assert_eq!(isqrt(81_000_000), 9000);
    assert_eq!(icbrt(7), 1);
    assert_eq!(icbrt(8), 2);
    assert_eq!(icbrt(10_000_000_000), 2154);
}

#[test]
fn vector_ops_componentwise() {
    let a = Position::new(3, -4);
    let b = Position::new(10, 7);
    assert_eq!(a.add(b), Position::new(13, 3));
    assert_eq!(b.sub(a), Position::new(7, 11));
    assert_eq!(a.mul(-2), Position::new(-6, 8));
    assert_eq!(Position::new(9, -9).div(2), Position::new(4, -4));
    let v = Velocity::new(5, -6);
    assert_eq!(v.add(Velocity::new(1, 1)), Velocity::new(6, -5));
    assert_eq!(v.sub(Velocity::new(1, 1)), Velocity::new(4, -7));
    assert_eq!(v.mul(3), Velocity::new(15, -18));
    assert_eq!(v.neg(), Velocity::new(-5, 6));
    assert_eq!(Velocity::new(5, -6).to_position(), Position::new(5, -6));
}

#[test]
fn dividing_by_zero_scalar_is_safe() {
    // The zero divisor becomes 1, so even the zero vector divides to
    // a finite, unchanged value.
    assert_eq!(Velocity::new(0, 0).div(0), Velocity::new(0, 0));
    assert_eq!(Position::new(10, -7).div(0), Position::new(10, -7));
}

#[test]
fn radius_exact_values() {
    // cube root of 1e10 is 2154; 2154 * 25 / 88 == 611.
    assert_eq!(Planet::radius(10_000_000_000), 611);
    // cube root of 1e6 is 100; 100 * 25 / 88 == 28.
    assert_eq!(Planet::radius(1_000_000), 28);
    assert_eq!(Planet::radius(0), 0);
    assert_eq!(Planet::radius(-5), 0);
}

#[test]
fn radius_monotone_in_mass() {
    let masses: [i128; 6] = [1, 1_000, 1_000_000, 10_000_000_000, 80_000_000_000, 300_000_000_000];
    for w in masses.windows(2) {
        assert!(Planet::radius(w[0]) <= Planet::radius(w[1]));
    }
    // Strictly larger across a big enough gap.
    assert!(Planet::radius(10_000_000_000) < Planet::radius(80_000_000_000));
}

#[test]
fn planet_factory_sets_fields() {
    let p = Planet::new(42, Position::new(7, 8), Velocity::new(-1, 2));
    assert_eq!(p.mass, 42);
    assert_eq!(p.position, Position::new(7, 8));
    assert_eq!(p.last_position, Position::new(7, 8));
    assert_eq!(p.velocity, Velocity::new(-1, 2));
    assert_eq!(p.trail_color.a, 255);
}

#[test]
fn space_new_insert_clear() {
    let mut s = Space::new();
    assert_eq!(s.planets.len(), 0);
    s.insert(planet(1, 0, 0, 0, 0));
    s.insert(planet(2, 5000, 0, 0, 0));
    assert_eq!(s.planets.len(), 2);
    assert_eq!(s.planets[1].mass, 2);
    s.clear();
    assert_eq!(s.planets.len(), 0);
}

#[test]
fn create_and_insert_appends() {
    let mut s = Space::new();
    s.create_and_insert(9, Position::new(1, 2), Velocity::new(3, 4));
    assert_eq!(s.planets.len(), 1);
    assert_eq!(s.planets[0].mass, 9);
    assert_eq!(s.planets[0].position, Position::new(1, 2));
    assert_eq!(s.planets[0].last_position, Position::new(1, 2));
    assert_eq!(s.planets[0].velocity, Velocity::new(3, 4));
    assert_eq!(s.planets[0].trail_color.a, 255);
}

#[test]
fn single_planet_keeps_velocity_and_drifts() {
    let mut s = Space::new();
    s.insert(planet(7, 10, 20, 5, -3));
    let shake = s.simulate(2);
    assert_eq!(shake, 0);
    assert_eq!(s.planets.len(), 1);
    assert_eq!(s.planets[0].velocity, Velocity::new(5, -3));
    assert_eq!(s.planets[0].position, Position::new(20, 14));
}

#[test]
fn merge_sums_masses_exactly() {
    let mut s = Space::new();
    s.insert(planet(10, 0, 0, 0, 0));
    s.insert(planet(5, 100, 0, 0, 0));
    let shake = s.simulate(0);
    assert_eq!(shake, 0);
    assert_eq!(s.planets.len(), 1);
    assert_eq!(s.planets[0].mass, 15);
    // The heavier planet (first index) survives with its own state.
    assert_eq!(s.planets[0].position, Position::new(0, 0));
    assert_eq!(s.planets[0].trail_color, Color::rgba(1, 2, 3, 255));
}

#[test]
fn merge_tie_keeps_first_index() {
    let mut s = Space::new();
    s.insert(planet(5, 0, 0, 0, 0));
    s.insert(planet(5, 100, 0, 0, 0));
    s.simulate(0);
    assert_eq!(s.planets.len(), 1);
    assert_eq!(s.planets[0].mass, 10);
    assert_eq!(s.planets[0].position, Position::new(0, 0));
}

#[test]
fn merge_threshold_is_strict() {
    // Centers exactly 400 apart: no merge.
    let mut s = Space::new();
    s.insert(planet(10, 0, 0, 0, 0));
    s.insert(planet(5, 400, 0, 0, 0));
    s.simulate(0);
    assert_eq!(s.planets.len(), 2);
    // Centers 399 apart: merge.
    let mut s = Space::new();
    s.insert(planet(10, 0, 0, 0, 0));
    s.insert(planet(5, 399, 0, 0, 0));
    s.simulate(0);
    assert_eq!(s.planets.len(), 1);
}

#[test]
fn merge_blends_velocity_by_mass_fraction() {
    // Absorbed planet's velocity is scaled by its mass over the
    // combined mass: 30 * 5 / 15 == 10, added to the survivor's 3.
    let mut s = Space::new();
    s.insert(planet(10, 0, 0, 3, 0));
    s.insert(planet(5, 100, 0, 30, 0));
    s.simulate(0);
    assert_eq!(s.planets.len(), 1);
    assert_eq!(s.planets[0].velocity, Velocity::new(13, 0));
}

#[test]
fn shake_needs_both_masses_over_threshold() {
    // Both above 2e11: shake is the raw product of the masses
    // (presentation scales it down by 1e23 for display).
    let mut s = Space::new();
    s.insert(planet(300_000_000_000, 0, 0, 0, 0));
    s.insert(planet(400_000_000_000, 100, 0, 0, 0));
    let shake = s.simulate(0);
    assert_eq!(s.planets.len(), 1);
    assert_eq!(shake, 120_000_000_000_000_000_000_000);
    // One mass exactly at the threshold (not strictly above): the
    // pair still merges but contributes no shake.
    let mut s = Space::new();
    s.insert(planet(200_000_000_000, 0, 0, 0, 0));
    s.insert(planet(400_000_000_000, 100, 0, 0, 0));
    let shake = s.simulate(0);
    assert_eq!(s.planets.len(), 1);
    assert_eq!(shake, 0);
}

#[test]
fn tick_removes_exactly_the_merged_planets() {
    // Five planets, exactly one colliding pair: the count drops by
    // exactly one.
    let mut s = Space::new();
    s.insert(planet(10, 0, 0, 0, 0));
    s.insert(planet(5, 100, 0, 0, 0));
    s.insert(planet(7, 10_000, 0, 0, 0));
    s.insert(planet(8, 20_000, 0, 0, 0));
    s.insert(planet(9, 30_000, 0, 0, 0));
    s.simulate(0);
    assert_eq!(s.planets.len(), 4);
    let total: i128 = s.planets.iter().map(|p| p.mass).sum();
    assert_eq!(total, 39);
}

#[test]
fn two_disjoint_merges_in_one_tick_conserve_mass() {
    // Two colliding pairs far from each other: both merge in the same
    // tick, the count drops by exactly two, and the total mass is
    // unchanged.
    let mut s = Space::new();
    s.insert(planet(10, 0, 0, 0, 0));
    s.insert(planet(5, 100, 0, 0, 0));
    s.insert(planet(7, 10_000, 0, 0, 0));
    s.insert(planet(3, 10_100, 0, 0, 0));
    s.simulate(0);
    assert_eq!(s.planets.len(), 2);
    assert_eq!(s.planets[0].mass, 15);
    assert_eq!(s.planets[1].mass, 10);
}

#[test]
fn coincident_planets_merge_without_fault() {
    // Distance zero: the guarded distance keeps the gravity pass
    // finite (the direction components are zero), and the pair merges.
    let mut s = Space::new();
    s.insert(planet(10, 50, 50, 0, 0));
    s.insert(planet(5, 50, 50, 0, 0));
    let shake = s.simulate(1);
    assert_eq!(shake, 0);
    assert_eq!(s.planets.len(), 1);
    assert_eq!(s.planets[0].mass, 15);
}

#[test]
fn absorbed_planet_can_still_absorb_later_in_tick() {
    // Index 0 (mass 3) is absorbed by index 1 (mass 10); later in the
    // same tick the already-absorbed index 0 still out-masses index 2
    // (mass 2) and absorbs it. Both marked planets are dropped, so
    // the mass index 0 gained goes with it: only index 1 survives.
    let mut s = Space::new();
    s.insert(planet(3, 0, 0, 0, 0));
    s.insert(planet(10, 100, 0, 0, 0));
    s.insert(planet(2, 200, 0, 0, 0));
    s.simulate(0);
    assert_eq!(s.planets.len(), 1);
    assert_eq!(s.planets[0].mass, 13);
}

#[test]
fn two_body_first_tick_exact() {
    // Two 1e10 masses 1000 apart, at rest, one tick of dt == 1.
    // Planet 0 feels acceleration 1e10/1000^2 == 1e4 and moves first
    // (the integration is deliberately sequential), so planet 1 then
    // sees it at distance 9000 and gains only 9e13/9000^3 == 123.
    let mut s = Space::new();
    s.insert(planet(10_000_000_000, 0, 0, 0, 0));
    s.insert(planet(10_000_000_000, 1000, 0, 0, 0));
    let shake = s.simulate(1);
    assert_eq!(shake, 0);
    assert_eq!(s.planets.len(), 2);
    assert_eq!(s.planets[0].velocity, Velocity::new(10_000, 0));
    assert_eq!(s.planets[0].position, Position::new(10_000, 0));
    assert_eq!(s.planets[1].velocity, Velocity::new(123, 0));
    assert_eq!(s.planets[1].position, Position::new(1123, 0));
}

#[test]
fn two_body_attract_and_eventually_merge() {
    // With masses small enough not to overshoot (1e6 gives an initial
    // acceleration of 1 per tick at distance 1000), the two planets
    // close in monotonically and merge once within 400 units.
    let mut s = Space::new();
    s.insert(planet(1_000_000, 0, 0, 0, 0));
    s.insert(planet(1_000_000, 1000, 0, 0, 0));
    let mut last_distance: i128 = 1000;
    let mut ticks: u32 = 0;
    while s.planets.len() == 2 {
        s.simulate(1);
        ticks += 1;
        assert!(ticks < 200, "planets failed to merge");
        if s.planets.len() == 2 {
            let d = (s.planets[1].position.x - s.planets[0].position.x).abs();
            assert!(d < last_distance, "distance failed to shrink");
            last_distance = d;
        }
    }
    assert_eq!(s.planets.len(), 1);
    assert_eq!(s.planets[0].mass, 2_000_000);
}
