use boids::clock::{Clock, Timing, TICK};
use boids::fixed::UNIT;
use boids::planar::{Boid, Flock};
use boids::trail::{alpha, record_all, Trail, CAPACITY};
use boids::vector::Vector;

#[test]
fn a_trail_starts_with_the_newest_position() {
    let mut t = Trail::new();
    assert_eq!(t.points.len(), 0);
    t.record(Vector::new(1, 1, 0));
    t.record(Vector::new(2, 2, 0));
    t.record(Vector::new(3, 3, 0));
    assert_eq!(
        t.points,
        vec![Vector::new(3, 3, 0), Vector::new(2, 2, 0), Vector::new(1, 1, 0)]
    );
}

#[test]
fn a_trail_is_bounded() {
    let mut t = Trail::new();
    for k in 0..100i64 {
        t.record(Vector::new(k, -k, 0));
        assert_eq!(t.points[0], Vector::new(k, -k, 0));
        assert!(t.points.len() <= CAPACITY + 1);
        assert_eq!(t.points.len(), std::cmp::min(k as usize + 1, CAPACITY + 1));
        if (k as usize) < CAPACITY {
            assert!(t.points.len() <= CAPACITY);
        }
    }
    assert_eq!(t.points[CAPACITY], Vector::new(79, -79, 0));
    assert_eq!(t.points[1], Vector::new(98, -98, 0));
}

#[test]
fn segments_leave_out_the_two_oldest_entries() {
    let mut t = Trail::new();
    assert_eq!(t.segment_count(), 0);
    t.record(Vector::new(1, 0, 0));
    t.record(Vector::new(2, 0, 0));
    assert_eq!(t.segment_count(), 0);
    t.record(Vector::new(3, 0, 0));
    assert_eq!(t.segment_count(), 1);
    let s = t.segment(0);
    assert_eq!(s.from, Vector::new(3, 0, 0));
    assert_eq!(s.to, Vector::new(2, 0, 0));
    assert_eq!(s.alpha, 255);
    for k in 4..40 {
        t.record(Vector::new(k, 0, 0));
    }
    assert_eq!(t.segment_count(), 19);
    let last = t.segment(18);
    assert_eq!(last.from, Vector::new(21, 0, 0));
    assert_eq!(last.to, Vector::new(20, 0, 0));
    assert_eq!(last.alpha, 75);
}

#[test]
fn segments_fade_with_age() {
    assert_eq!(alpha(0), 255);
    assert_eq!(alpha(1), 245);
    assert_eq!(alpha(18), 75);
    assert_eq!(alpha(25), 5);
    assert_eq!(alpha(26), 0);
    assert_eq!(alpha(1000), 0);
    assert_eq!(alpha(usize::MAX), 0);
}

#[test]
fn every_trail_records_its_own_agent() {
    let mut f = Flock::new();
    let a = Vector::new(UNIT, UNIT, 0);
    let b = Vector::new(9 * UNIT, 3 * UNIT, 0);
    assert!(f.push(Boid::new(a, a, a, Vector::zero())));
    assert!(f.push(Boid::new(b, b, b, Vector::zero())));
    let mut trails = vec![Trail::new(), Trail::new()];
    record_all(&mut trails, &f);
    assert_eq!(trails[0].points, vec![a]);
    assert_eq!(trails[1].points, vec![b]);
    record_all(&mut trails, &f);
    assert_eq!(trails[1].points, vec![b, b]);
}

#[test]
fn per_frame_pacing_takes_one_step() {
    let mut c = Clock::new(Timing::PerFrame);
    assert_eq!(c.frame(0), 1);
    assert_eq!(c.frame(5 * TICK), 1);
    assert_eq!(c.carried, 0);
}

#[test]
fn fixed_pacing_carries_the_rest_over() {
    let mut c = Clock::new(Timing::Fixed);
    assert_eq!(c.frame(50_000_000), 2);
    assert_eq!(c.carried, 16_666_666);
    assert_eq!(c.frame(1), 1);
    assert_eq!(c.carried, 0);
    assert_eq!(c.frame(TICK - 1), 0);
    assert_eq!(c.carried, TICK - 1);
    assert_eq!(c.frame(0), 0);
    assert_eq!(c.frame(u64::MAX), 1106804622287);
    assert_eq!(c.carried, 8010852);
}
