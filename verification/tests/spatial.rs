use boids::fixed::UNIT;
use boids::rules::Rules;
use boids::spatial::{cage, palette, pick_color, push_from, Boid, Flock, HALF_LENGTH};
use boids::vector::Vector;

#[test]
fn new_agent_lies_along_the_diagonal() {
    let b = Boid::new(Vector::new(1, 2, 3), Vector::new(4, 5, 6), 2);
    assert_eq!(b.position, Vector::new(1, 2, 3));
    assert_eq!(b.velocity, Vector::new(4, 5, 6));
    assert_eq!(b.p1, Vector::new(200_001, 200_002, 200_003));
    assert_eq!(b.p2, Vector::new(-199_999, -199_998, -199_997));
    assert_eq!(b.color, 2);
}

#[test]
fn segment_lies_along_the_velocity() {
    let mut b = Boid::new(Vector::zero(), Vector::zero(), 0);
    b.advance(Vector::new(0, 30_000, -40_000));
    assert_eq!(b.position, Vector::new(0, 30_000, -40_000));
    assert_eq!(b.p1, Vector::new(0, 150_000, -200_000));
    assert_eq!(b.p2, Vector::new(0, -90_000, 120_000));
    let axis = b.p1.minus(b.position);
    assert_eq!(axis, Vector::new(0, 120_000, -160_000));
    assert_eq!(axis.norm_sq(), (HALF_LENGTH as u128) * (HALF_LENGTH as u128));
}

#[test]
fn an_agent_at_rest_keeps_its_direction() {
    let mut b = Boid::new(Vector::new(UNIT, UNIT, UNIT), Vector::zero(), 0);
    b.advance(Vector::new(100_000, 0, 0));
    assert_eq!(b.p1.minus(b.position), Vector::new(HALF_LENGTH, 0, 0));
    b.advance(Vector::zero());
    assert_eq!(b.velocity, Vector::zero());
    assert_eq!(b.position, Vector::new(UNIT + 100_000, UNIT, UNIT));
    assert_eq!(b.p1.minus(b.position), Vector::new(HALF_LENGTH, 0, 0));
    assert_eq!(b.position.minus(b.p2), Vector::new(HALF_LENGTH, 0, 0));
}

#[test]
fn faces_of_the_cube_turn_agents_back() {
    let v = Vector::new(1, 2, 3);
    assert_eq!(cage(v, Vector::zero()), v);
    assert_eq!(cage(v, Vector::new(8_499_999, -8_499_999, 0)), v);
    assert_eq!(
        cage(v, Vector::new(8_500_000, -8_500_000, 12 * UNIT)),
        Vector::new(1 - 5_000, 2 + 5_000, 3 - 5_000)
    );
    assert_eq!(cage(v, Vector::new(0, 0, -20 * UNIT)), Vector::new(1, 2, 3 + 5_000));
}

#[test]
fn the_camera_pushes_close_agents_away() {
    let camera = Vector::new(UNIT, UNIT, UNIT);
    assert_eq!(push_from(Vector::new(UNIT, UNIT + 500_000, UNIT), camera), Vector::zero());
    assert_eq!(
        push_from(Vector::new(UNIT + 100_000, UNIT - 300_000, UNIT + 7), camera),
        Vector::new(130_000, -390_000, 9)
    );
    assert_eq!(push_from(camera, camera), Vector::zero());
}

#[test]
fn palette_has_seven_colours() {
    assert_eq!(palette(0), (129, 161, 193));
    assert_eq!(palette(1), (191, 97, 106));
    assert_eq!(palette(2), (208, 135, 112));
    assert_eq!(palette(3), (163, 190, 140));
    assert_eq!(palette(4), (235, 203, 139));
    assert_eq!(palette(5), (143, 188, 187));
    assert_eq!(palette(6), (136, 192, 208));
    assert_eq!(pick_color(0), 0);
    assert_eq!(pick_color(6), 6);
    assert_eq!(pick_color(7), 6);
}

#[test]
fn a_lone_agent_in_the_middle_flies_straight() {
    let mut f = Flock::new();
    assert!(f.push(Boid::new(Vector::zero(), Vector::new(30_000, 0, 40_000), 3)));
    f.step(Vector::new(5 * UNIT, 5 * UNIT, 5 * UNIT));
    let b = f.boids[0];
    assert_eq!(b.velocity, Vector::new(30_000, 0, 40_000));
    assert_eq!(b.position, Vector::new(30_000, 0, 40_000));
    assert_eq!(b.p1, Vector::new(30_000 + 120_000, 0, 40_000 + 160_000));
    assert_eq!(b.color, 3);
}

#[test]
fn the_camera_counts_as_a_neighbour_that_only_repels() {
    let mut f = Flock::new();
    assert!(f.push(Boid::new(Vector::new(100_000, 0, 0), Vector::zero(), 0)));
    f.step(Vector::zero());
    // offset (0.1, 0, 0) weighed 1.3, then a twentieth of it
    assert_eq!(f.boids[0].velocity, Vector::new(6_500, 0, 0));
    assert_eq!(f.boids[0].position, Vector::new(106_500, 0, 0));
}

#[test]
fn spatial_step_blends_the_three_rules() {
    let mut f = Flock::new();
    assert!(f.push(Boid::new(Vector::zero(), Vector::zero(), 0)));
    assert!(f.push(Boid::new(Vector::new(400_000, 0, 0), Vector::new(0, 100_000, 0), 1)));
    f.step(Vector::new(10 * UNIT, 0, 0));
    // separation (-0.4 * 0.05), cohesion (0.4 * 0.001), alignment toward (0, 0.1, 0)
    let drawn_x = -20_000 + 400;
    assert_eq!(
        f.boids[0].velocity,
        Vector::new(drawn_x + (0 - drawn_x) / 20, 100_000 / 20, 0)
    );
}

#[test]
fn spatial_agents_respect_the_cap() {
    let mut f = Flock::spawn(100);
    assert_eq!(f.boids.len(), 100);
    let colors: Vec<u8> = f.boids.iter().map(|b| b.color).collect();
    let cap = (Rules::spatial().max_speed as u128) * (Rules::spatial().max_speed as u128);
    let half = (HALF_LENGTH as u128) * (HALF_LENGTH as u128);
    for _ in 0..50 {
        assert!(f.try_step(Vector::new(0, UNIT, 0)));
        for (j, b) in f.boids.iter().enumerate() {
            assert!(b.velocity.norm_sq() <= cap);
            assert_eq!(b.color, colors[j]);
            assert_eq!(b.p1.minus(b.position), b.position.minus(b.p2));
            if b.velocity != Vector::zero() {
                let reach = b.p1.minus(b.position).norm_sq();
                assert!(reach <= half);
                assert!(reach >= (HALF_LENGTH as u128 - 5) * (HALF_LENGTH as u128 - 5));
            }
        }
    }
}

#[test]
fn spawned_agents_lie_in_the_cube_and_differ() {
    let f = Flock::spawn(100);
    let mut seen = Vec::new();
    let mut colours = Vec::new();
    for b in f.boids.iter() {
        for c in [b.position.x, b.position.y, b.position.z] {
            assert!(-12 * UNIT <= c && c <= 12 * UNIT);
        }
        for c in [b.velocity.x, b.velocity.y, b.velocity.z] {
            assert!(-200_000 <= c && c <= 200_000);
        }
        assert!(b.color < 7);
        assert_eq!(b.p1, b.position.plus(Vector::new(HALF_LENGTH, HALF_LENGTH, HALF_LENGTH)));
        assert_eq!(b.p2, b.position.minus(Vector::new(HALF_LENGTH, HALF_LENGTH, HALF_LENGTH)));
        if !seen.contains(&b.position.z) {
            seen.push(b.position.z);
        }
        if !colours.contains(&b.color) {
            colours.push(b.color);
        }
    }
    assert!(seen.len() > 50);
    assert!(colours.len() > 1);
}

#[test]
fn segments_of_slow_agents_are_nearly_as_long() {
    let slow = [
        Vector::new(1, 0, 0),
        Vector::new(1, 1, 1),
        Vector::new(-1, 2, -3),
        Vector::new(7, -11, 13),
        Vector::new(199_999, 1, -1),
    ];
    for v in slow {
        let mut b = Boid::new(Vector::zero(), Vector::zero(), 0);
        b.advance(v);
        let reach = b.p1.minus(b.position).norm_sq();
        assert!(reach <= (HALF_LENGTH as u128) * (HALF_LENGTH as u128));
        assert!(reach >= (HALF_LENGTH as u128 - 5) * (HALF_LENGTH as u128 - 5));
    }
}
