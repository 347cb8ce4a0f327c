use boids::fixed::{div_toward_zero, sqrt_up, UNIT};
use boids::rules::{scan, steer, Body, Rules};
use boids::vector::Vector;

fn at(x: i64, y: i64) -> Body {
    Body { position: Vector::new(x * UNIT, y * UNIT, 0), velocity: Vector::zero() }
}

#[test]
fn division_rounds_toward_zero() {
    assert_eq!(div_toward_zero(7, 2), 3);
    assert_eq!(div_toward_zero(-7, 2), -3);
    assert_eq!(div_toward_zero(-1, 20), 0);
    assert_eq!(div_toward_zero(0, 5), 0);
    assert_eq!(div_toward_zero(40, 20), 2);
}

#[test]
fn square_root_rounds_up() {
    assert_eq!(sqrt_up(0), 0);
    assert_eq!(sqrt_up(1), 1);
    assert_eq!(sqrt_up(2), 2);
    assert_eq!(sqrt_up(10), 4);
    assert_eq!(sqrt_up(16), 4);
    assert_eq!(sqrt_up(17), 5);
    assert_eq!(sqrt_up(1u128 << 126), 1u128 << 63);
    assert_eq!(sqrt_up((1u128 << 126) - 1), 1u128 << 63);
}

#[test]
fn vector_sum_difference_and_ratio() {
    let a = Vector::new(7, -7, 40);
    let b = Vector::new(1, 2, 3);
    assert_eq!(a.plus(b), Vector::new(8, -5, 43));
    assert_eq!(a.minus(b), Vector::new(6, -9, 37));
    assert_eq!(a.ratio(1, 2), Vector::new(3, -3, 20));
    assert_eq!(a.ratio(13, 10), Vector::new(9, -9, 52));
    assert_eq!(a.norm_sq(), 49 + 49 + 1600);
}

#[test]
fn near_is_strict() {
    let a = Vector::new(0, 0, 0);
    let b = Vector::new(3, 4, 0);
    assert!(a.near(b, 6));
    assert!(!a.near(b, 5));
    assert!(!a.near(b, 4));
    assert!(!a.near(a, 0));
    assert!(a.near(a, 1));
}

#[test]
fn capping_keeps_short_vectors_and_shortens_long_ones() {
    let v = Vector::new(3 * UNIT, 4 * UNIT, 0);
    assert_eq!(v.capped(5 * UNIT), v);
    assert_eq!(v.capped(6 * UNIT), v);
    assert_eq!(v.capped(2_500_000), Vector::new(1_500_000, 2_000_000, 0));
    let w = Vector::new(-3 * UNIT, 0, 4 * UNIT);
    assert_eq!(w.capped(UNIT), Vector::new(-600_000, 0, 800_000));
    assert_eq!(Vector::zero().capped(0), Vector::zero());
    assert_eq!(v.capped(0), Vector::zero());
}

#[test]
fn resizing_never_overshoots() {
    let targets = [1i64, 7, 200_000, UNIT, 5_500_000];
    let vectors = [
        Vector::new(1, 0, 0),
        Vector::new(1, 1, 1),
        Vector::new(-1, 2, -3),
        Vector::new(123_456, -654_321, 7),
        Vector::new(5_000_000, 5_000_000, 5_000_000),
        Vector::new(1 << 46, -(1 << 46), 1 << 46),
    ];
    for v in vectors {
        for t in targets {
            let r = v.resized(t);
            assert!(r.norm_sq() <= (t as u128) * (t as u128));
            assert!(r.x.signum() * v.x.signum() >= 0);
            assert!(r.y.signum() * v.y.signum() >= 0);
            assert!(r.z.signum() * v.z.signum() >= 0);
        }
    }
    assert_eq!(Vector::new(0, 0, 9).resized(200_000), Vector::new(0, 0, 200_000));
    assert_eq!(Vector::new(0, -2, 0).resized(UNIT), Vector::new(0, -UNIT, 0));
}

#[test]
fn the_two_variants_have_their_constants() {
    let p = Rules::planar();
    assert_eq!(p.cohere_radius, 75 * UNIT);
    assert_eq!(p.separate_radius, 25 * UNIT);
    assert_eq!(p.cohesion_divisor, 200);
    assert_eq!(p.max_speed, 5_500_000);
    let s = Rules::spatial();
    assert_eq!(s.cohere_radius, 2_700_000);
    assert_eq!(s.separate_radius, 500_000);
    assert_eq!(s.cohesion_divisor, 1000);
    assert_eq!(s.max_speed, 200_000);
}

#[test]
fn scan_leaves_the_agent_itself_out() {
    let flock = vec![at(0, 0)];
    let s = scan(&flock, 0, &Rules::planar());
    assert_eq!(s.count, 0);
    assert_eq!(s.center, Vector::zero());
    assert_eq!(s.velocity, Vector::zero());
    assert_eq!(s.repulsion, Vector::zero());
}

#[test]
fn alone_the_rules_change_nothing() {
    let mut me = at(100, 100);
    me.velocity = Vector::new(1_234_567, -7, 0);
    let flock = vec![at(0, 0), me, at(300, 100), at(100, 175)];
    let rules = Rules::planar();
    let s = scan(&flock, 1, &rules);
    assert_eq!(s.count, 0);
    assert_eq!(s.repulsion, Vector::zero());
    assert_eq!(steer(&me, &s, Vector::zero(), &rules), me.velocity);
}

#[test]
fn radii_are_exclusive() {
    let rules = Rules::planar();
    let flock = vec![at(0, 0), at(75, 0), at(0, 25)];
    let s = scan(&flock, 0, &rules);
    assert_eq!(s.count, 1);
    assert_eq!(s.center, Vector::new(0, 25 * UNIT, 0));
    assert_eq!(s.repulsion, Vector::zero());
    let closer = vec![at(0, 0), at(75, 0), Body {
        position: Vector::new(0, 25 * UNIT - 1, 0),
        velocity: Vector::zero(),
    }];
    let s = scan(&closer, 0, &rules);
    assert_eq!(s.count, 1);
    assert_eq!(s.repulsion, Vector::new(0, -(25 * UNIT - 1), 0));
}

#[test]
fn one_neighbour_that_only_attracts() {
    let rules = Rules::planar();
    let mut me = at(0, 0);
    me.velocity = Vector::new(UNIT, 0, 0);
    let mut other = at(30, 40);
    other.velocity = Vector::new(0, 2 * UNIT, 0);
    let flock = vec![me, other];
    let s = scan(&flock, 0, &rules);
    assert_eq!(s.count, 1);
    assert_eq!(s.center, other.position);
    assert_eq!(s.velocity, other.velocity);
    assert_eq!(s.repulsion, Vector::zero());
    let v = steer(&me, &s, Vector::zero(), &rules);
    // cohesion: (30, 40) * 0.005 = (0.15, 0.2); alignment: ((0, 2) - (1.15, 0.2)) * 0.05
    let drawn = Vector::new(UNIT + 150_000, 200_000, 0);
    assert_eq!(v, Vector::new(drawn.x - 57_500, drawn.y + 90_000, 0));
}

#[test]
fn two_agents_ten_apart() {
    let rules = Rules::planar();
    let flock = vec![at(0, 0), at(10, 0)];
    let a = scan(&flock, 0, &rules);
    assert_eq!(a.count, 1);
    assert_eq!(a.center, Vector::new(10 * UNIT, 0, 0));
    assert_eq!(a.repulsion, Vector::new(-10 * UNIT, 0, 0));
    // separation -0.5, cohesion +0.05, alignment +0.0225
    assert_eq!(steer(&flock[0], &a, Vector::zero(), &rules), Vector::new(-427_500, 0, 0));
    let b = scan(&flock, 1, &rules);
    assert_eq!(steer(&flock[1], &b, Vector::zero(), &rules), Vector::new(427_500, 0, 0));
}

#[test]
fn two_agents_thirty_apart_only_attract() {
    let rules = Rules::planar();
    let flock = vec![at(0, 0), at(30, 0)];
    let a = scan(&flock, 0, &rules);
    assert_eq!(a.repulsion, Vector::zero());
    // cohesion 30 * 0.005 = 0.15, then alignment takes a twentieth of it back
    assert_eq!(steer(&flock[0], &a, Vector::zero(), &rules), Vector::new(142_500, 0, 0));
    let b = scan(&flock, 1, &rules);
    assert_eq!(steer(&flock[1], &b, Vector::zero(), &rules), Vector::new(-142_500, 0, 0));
}

#[test]
fn means_are_taken_over_the_neighbours() {
    let rules = Rules::spatial();
    let me = Body { position: Vector::zero(), velocity: Vector::zero() };
    let one = Body {
        position: Vector::new(UNIT, 0, 0),
        velocity: Vector::new(100_000, 0, 0),
    };
    let two = Body {
        position: Vector::new(0, 2 * UNIT, 0),
        velocity: Vector::new(0, 0, -50_000),
    };
    let flock = vec![one, me, two];
    let s = scan(&flock, 1, &rules);
    assert_eq!(s.count, 2);
    assert_eq!(s.center, Vector::new(UNIT, 2 * UNIT, 0));
    assert_eq!(s.velocity, Vector::new(100_000, 0, -50_000));
    let v = steer(&me, &s, Vector::zero(), &rules);
    // mean position (0.5, 1, 0) * 0.001, then a twentieth of the way to the mean velocity
    let drawn = Vector::new(500, 1000, 0);
    assert_eq!(
        v,
        Vector::new(500 + (50_000 - 500) / 20, 1000 + (0 - 1000) / 20, (-25_000) / 20)
    );
    assert_eq!(drawn.x, 500);
}

#[test]
fn an_extra_push_joins_the_separation() {
    let rules = Rules::spatial();
    let me = Body { position: Vector::zero(), velocity: Vector::new(1, 2, 3) };
    let flock = vec![me];
    let s = scan(&flock, 0, &rules);
    let v = steer(&me, &s, Vector::new(200, -400, 19), &rules);
    assert_eq!(v, Vector::new(11, -18, 3));
}

#[test]
fn capping_never_turns_a_vector_round() {
    let vectors = [
        Vector::new(9 * UNIT, -2 * UNIT, 1),
        Vector::new(-1, -1, -1),
        Vector::new(0, 7 * UNIT, -7 * UNIT),
        Vector::new(1 << 45, -(1 << 44), 3),
    ];
    for v in vectors {
        for max in [0i64, 1, 200_000, 5_500_000] {
            let c = v.capped(max);
            for (part, from) in [(c.x, v.x), (c.y, v.y), (c.z, v.z)] {
                assert!(part.abs() <= from.abs());
                assert!(part == 0 || part.signum() == from.signum());
            }
            assert!(c.norm_sq() <= (max as u128) * (max as u128));
        }
    }
}
