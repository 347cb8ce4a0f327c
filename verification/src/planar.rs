//! The planar variant: triangular agents that live in the plane `z = 0` and
//! are steered back from the edges of a viewport.

use vstd::prelude::*;
use crate::random::between;
use crate::fixed::{abs, div_toward_zero, lemma_trunc_div_bounds, lemma_trunc_div_le, trunc_div,
    UNIT};
use crate::rules::{bodies_of, bodies_wf, blend, lemma_steered_flat, lemma_tally_flat,
    planar_rules, scan, steer, steered, tally, Agent, Body, Rules, MAX_AGENTS, POSITION_LIMIT,
    STEER_LIMIT, VELOCITY_LIMIT};
use crate::vector::{lemma_component_bound, lemma_fine_length, lemma_resized_norm,
    lemma_resized_reach, Point, Vector, FINE, LENGTH_LIMIT, REACH};

verus! {

/// Largest offset of a triangle corner from the centroid: two to the power 41.
pub const BASE_LIMIT: i64 = 0x200_0000_0000;

/// A unit vector in the plane, up to rounding: the cosine and the sine of a
/// facing angle, in raw counts.
pub open spec fn is_heading(h: Point) -> bool {
    h.z == 0 && h.norm_sq() <= UNIT * UNIT
}

/// The heading that faces up the screen, at a right angle to the x axis.
pub open spec fn up() -> Point {
    Point { x: 0, y: UNIT as int, z: 0 }
}

/// The heading of an agent that moves with velocity `v`: the direction of
/// `(v.x, -v.y)`, since the y axis of the screen points down. An agent at
/// rest faces along the x axis.
pub open spec fn heading_of(v: Point) -> Point {
    if v.x == 0 && v.y == 0 {
        Point { x: UNIT as int, y: 0, z: 0 }
    } else {
        (Point { x: v.x, y: -v.y, z: 0 }).resized(UNIT as int)
    }
}

/// The offset `base`, drawn for an agent that faces up, turned about the
/// origin to face along `heading`. With `c` and `s` the cosine and sine of
/// the angle between the two facings, a point `(x, y)` goes to
/// `(x c + y s, -x s + y c)`.
pub open spec fn turned(base: Point, heading: Point) -> Point {
    Point {
        x: trunc_div(base.x * heading.y - base.y * heading.x, UNIT as int),
        y: trunc_div(base.x * heading.x + base.y * heading.y, UNIT as int),
        z: 0,
    }
}

/// The mean of three points, rounded toward zero.
pub open spec fn mean3(a: Point, b: Point, c: Point) -> Point {
    a.plus(b).plus(c).ratio(1, 3)
}

/// A planar offset that a triangle corner may have from the centroid.
pub open spec fn is_base(b: Point) -> bool {
    b.z == 0 && b.within(BASE_LIMIT as int)
}

/// A triangular agent in the plane.
#[derive(Clone, Copy, PartialEq, Eq, Structural, Debug)]
pub struct Boid {
    pub p1: Vector,
    pub p2: Vector,
    pub p3: Vector,
    /// Cosine and sine of the facing angle.
    pub heading: Vector,
    pub centroid: Vector,
    pub velocity: Vector,
    /// The corners relative to the centroid, as drawn when facing up.
    pub base1: Vector,
    pub base2: Vector,
    pub base3: Vector,
}

impl Boid {
    /// Every quantity that the corners are derived from is inside the
    /// representable world, and the base shape is centred.
    pub open spec fn framed(self) -> bool {
        &&& self.centroid.z == 0 && self.centroid@.within(POSITION_LIMIT as int)
        &&& self.velocity.z == 0 && self.velocity@.within(VELOCITY_LIMIT as int)
        &&& is_heading(self.heading@)
        &&& is_base(self.base1@) && is_base(self.base2@) && is_base(self.base3@)
        &&& abs(self.base1.x + self.base2.x + self.base3.x) <= 2
        &&& abs(self.base1.y + self.base2.y + self.base3.y) <= 2
    }

    /// The agent is framed and its corners are where centroid, heading and
    /// base shape put them.
    pub open spec fn wf(self) -> bool {
        &&& self.framed()
        &&& self.p1@ == self.centroid@.plus(turned(self.base1@, self.heading@))
        &&& self.p2@ == self.centroid@.plus(turned(self.base2@, self.heading@))
        &&& self.p3@ == self.centroid@.plus(turned(self.base3@, self.heading@))
    }

    /// `self` is `before` turned to face along `heading`, everything else
    /// kept.
    pub open spec fn is_rotated(self, before: Boid, heading: Point) -> bool {
        &&& self.wf()
        &&& self.heading@ == heading
        &&& self.centroid == before.centroid
        &&& self.velocity == before.velocity
        &&& self.base1 == before.base1
        &&& self.base2 == before.base2
        &&& self.base3 == before.base3
    }

    /// `self` is `before` after it took the velocity `v`, moved by it and
    /// turned to face where it is going.
    pub open spec fn is_moved(self, before: Boid, v: Point) -> bool {
        &&& self.wf()
        &&& self.velocity@ == v
        &&& self.centroid@ == before.centroid@.plus(v)
        &&& self.heading@ == heading_of(v)
        &&& self.base1 == before.base1
        &&& self.base2 == before.base2
        &&& self.base3 == before.base3
    }
}

impl Agent for Boid {
    open spec fn body(&self) -> Body {
        Body { position: self.centroid, velocity: self.velocity }
    }

    fn to_body(&self) -> (b: Body) {
        Body { position: self.centroid, velocity: self.velocity }
    }
}

/// Dividing an exact multiple gives the factor back.
proof fn lemma_trunc_div_exact(a: int, d: int)
    requires
        d > 0,
    ensures
        trunc_div(a * d, d) == a,
{
    if a >= 0 {
        assert(a * d >= 0 && (a * d) / d == a) by (nonlinear_arith)
            requires
                a >= 0,
                d > 0,
        ;
    } else {
        assert(a * d < 0 && (-(a * d)) / d == -a) by (nonlinear_arith)
            requires
                a < 0,
                d > 0,
        ;
    }
}

/// Turning to face up changes nothing.
pub proof fn lemma_turned_up(base: Point)
    requires
        base.z == 0,
    ensures
        turned(base, up()) == base,
{
    lemma_trunc_div_exact(base.x, UNIT as int);
    lemma_trunc_div_exact(base.y, UNIT as int);
    assert(base.x * UNIT - base.y * 0 == base.x * UNIT);
    assert(base.x * 0 + base.y * UNIT == base.y * UNIT);
}

/// A turned offset has parts no larger than the two parts of the offset
/// taken together.
pub proof fn lemma_turned_within(base: Point, heading: Point)
    requires
        is_base(base),
        is_heading(heading),
    ensures
        turned(base, heading).within(2 * BASE_LIMIT),
        heading.within(UNIT as int),
{
    lemma_component_bound(heading, UNIT as int);
    let limit = BASE_LIMIT as int;
    let a = base.x * heading.y - base.y * heading.x;
    let b = base.x * heading.x + base.y * heading.y;
    assert(abs(a) <= (2 * limit) * UNIT && abs(b) <= (2 * limit) * UNIT) by (nonlinear_arith)
        requires
            -limit <= base.x <= limit,
            -limit <= base.y <= limit,
            -UNIT <= heading.x <= UNIT,
            -UNIT <= heading.y <= UNIT,
            a == base.x * heading.y - base.y * heading.x,
            b == base.x * heading.x + base.y * heading.y,
            limit >= 0,
    ;
    lemma_trunc_div_le(a, UNIT as int, 2 * limit);
    lemma_trunc_div_le(b, UNIT as int, 2 * limit);
}

/// Turns an offset drawn facing up to face along `heading`.
pub fn turn(base: Vector, heading: Vector) -> (r: Vector)
    requires
        is_base(base@),
        is_heading(heading@),
    ensures
        r@ == turned(base@, heading@),
        r@.within(2 * BASE_LIMIT),
{
    proof {
        lemma_turned_within(base@, heading@);
    }
    let bx: i128 = base.x as i128;
    let by: i128 = base.y as i128;
    let hx: i128 = heading.x as i128;
    let hy: i128 = heading.y as i128;
    assert(-0x200_0000_0000 * 1_000_000 <= bx * hy <= 0x200_0000_0000 * 1_000_000
        && -0x200_0000_0000 * 1_000_000 <= by * hx <= 0x200_0000_0000 * 1_000_000
        && -0x200_0000_0000 * 1_000_000 <= bx * hx <= 0x200_0000_0000 * 1_000_000
        && -0x200_0000_0000 * 1_000_000 <= by * hy <= 0x200_0000_0000 * 1_000_000)
        by (nonlinear_arith)
        requires
            -0x200_0000_0000 <= bx <= 0x200_0000_0000,
            -0x200_0000_0000 <= by <= 0x200_0000_0000,
            -1_000_000 <= hx <= 1_000_000,
            -1_000_000 <= hy <= 1_000_000,
    ;
    let x: i128 = div_toward_zero(bx * hy - by * hx, 1_000_000);
    let y: i128 = div_toward_zero(bx * hx + by * hy, 1_000_000);
    Vector { x: x as i64, y: y as i64, z: 0 }
}

/// The heading of an agent that moves with velocity `v`.
pub fn heading_for(v: Vector) -> (h: Vector)
    requires
        v@.within(REACH as int),
    ensures
        h@ == heading_of(v@),
        is_heading(h@),
{
    if v.x == 0 && v.y == 0 {
        assert((UNIT as int) * (UNIT as int) + 0 * 0 + 0 * 0 <= UNIT * UNIT);
        Vector { x: UNIT, y: 0, z: 0 }
    } else {
        let flat = Vector { x: v.x, y: -v.y, z: 0 };
        assert(flat@.norm_sq() > 0) by (nonlinear_arith)
            requires
                flat@.norm_sq() == v.x * v.x + (-v.y) * (-v.y) + 0 * 0,
                v.x != 0 || v.y != 0,
        ;
        let h = flat.resized(UNIT);
        proof {
            lemma_fine_length(flat@);
            assert(0int * (UNIT as int) * (FINE as int) == 0);
            assert(h.z == 0);
        }
        h
    }
}

/// The heading of a moving agent is a unit vector up to rounding: no
/// longer than one unit, and shorter by eighteen counts at most.
pub proof fn law_heading_length(v: Point)
    ensures
        heading_of(v).norm_sq() <= UNIT * UNIT,
        heading_of(v).norm_sq() >= (UNIT - 18) * (UNIT - 18),
{
    if v.x == 0 && v.y == 0 {
        assert((UNIT as int) * (UNIT as int) + 0 * 0 + 0 * 0 == UNIT * UNIT);
        assert((UNIT - 18) * (UNIT - 18) <= UNIT * UNIT);
    } else {
        let flat = Point { x: v.x, y: -v.y, z: 0 };
        assert(flat.norm_sq() > 0) by (nonlinear_arith)
            requires
                flat.norm_sq() == v.x * v.x + (-v.y) * (-v.y) + 0 * 0,
                v.x != 0 || v.y != 0,
        ;
        lemma_resized_norm(flat, UNIT as int);
        lemma_resized_reach(flat, UNIT as int, 18);
    }
}

/// A planar point inside the representable world.
pub open spec fn is_planar(p: Point) -> bool {
    p.z == 0 && p.within(POSITION_LIMIT as int)
}

/// The mean of three points of the world is a point of the world, and the
/// offsets of the three from it add up to at most two counts.
pub proof fn lemma_mean3(a: Point, b: Point, c: Point)
    requires
        is_planar(a),
        is_planar(b),
        is_planar(c),
    ensures
        is_planar(mean3(a, b, c)),
        abs(a.x + b.x + c.x - 3 * mean3(a, b, c).x) <= 2,
        abs(a.y + b.y + c.y - 3 * mean3(a, b, c).y) <= 2,
{
    let sum = a.plus(b).plus(c);
    lemma_trunc_div_bounds(sum.x * 1, 3);
    lemma_trunc_div_bounds(sum.y * 1, 3);
    lemma_trunc_div_bounds(sum.z * 1, 3);
    lemma_trunc_div_le(sum.x * 1, 3, POSITION_LIMIT as int);
    lemma_trunc_div_le(sum.y * 1, 3, POSITION_LIMIT as int);
}

/// Computes the mean of three points of the world.
fn mean_of(a: Vector, b: Vector, c: Vector) -> (m: Vector)
    requires
        is_planar(a@),
        is_planar(b@),
        is_planar(c@),
    ensures
        m@ == mean3(a@, b@, c@),
        is_planar(m@),
        abs(a.x + b.x + c.x - 3 * m.x) <= 2,
        abs(a.y + b.y + c.y - 3 * m.y) <= 2,
{
    proof {
        lemma_mean3(a@, b@, c@);
    }
    a.plus(b).plus(c).ratio(1, 3)
}

impl Boid {
    /// A triangle with the given corners that faces up the screen and moves
    /// with `velocity`. Its centroid is the mean of the corners.
    pub fn new(p1: Vector, p2: Vector, p3: Vector, velocity: Vector) -> (b: Boid)
        requires
            is_planar(p1@),
            is_planar(p2@),
            is_planar(p3@),
            velocity.z == 0,
            velocity@.within(VELOCITY_LIMIT as int),
        ensures
            b.wf(),
            b.p1 == p1,
            b.p2 == p2,
            b.p3 == p3,
            b.velocity == velocity,
            b.heading@ == up(),
            b.centroid@ == mean3(p1@, p2@, p3@),
            b.base1@ == p1@.minus(b.centroid@),
            b.base2@ == p2@.minus(b.centroid@),
            b.base3@ == p3@.minus(b.centroid@),
    {
        let centroid = mean_of(p1, p2, p3);
        let base1 = p1.minus(centroid);
        let base2 = p2.minus(centroid);
        let base3 = p3.minus(centroid);
        let heading = Vector { x: 0, y: UNIT, z: 0 };
        proof {
            lemma_turned_up(base1@);
            lemma_turned_up(base2@);
            lemma_turned_up(base3@);
            assert(is_heading(heading@)) by {
                assert(0 * 0 + (UNIT as int) * (UNIT as int) + 0 * 0 <= UNIT * UNIT);
            }
            assert(p1@ == centroid@.plus(base1@));
            assert(p2@ == centroid@.plus(base2@));
            assert(p3@ == centroid@.plus(base3@));
        }
        Boid { p1, p2, p3, heading, centroid, velocity, base1, base2, base3 }
    }

    /// The agent as it is first placed: one corner at `corner`, the second 5
    /// units right and 15 up of it, the third 10 units right of it.
    pub fn hatch(corner: Vector, velocity: Vector) -> (b: Boid)
        requires
            corner.z == 0,
            corner@.within(VIEW_LIMIT as int),
            velocity.z == 0,
            velocity@.within(VELOCITY_LIMIT as int),
        ensures
            b.wf(),
            b.p1 == corner,
            b.p2@ == corner@.plus(Point { x: 5 * UNIT, y: -15 * UNIT, z: 0 }),
            b.p3@ == corner@.plus(Point { x: 10 * UNIT, y: 0, z: 0 }),
            b.velocity == velocity,
            b.heading@ == up(),
            b.centroid@ == mean3(b.p1@, b.p2@, b.p3@),
    {
        let p2 = corner.plus(Vector { x: 5 * UNIT, y: -15 * UNIT, z: 0 });
        let p3 = corner.plus(Vector { x: 10 * UNIT, y: 0, z: 0 });
        Boid::new(corner, p2, p3, velocity)
    }

    /// Turns the triangle about its centroid to face along `heading`.
    pub fn rotate(&mut self, heading: Vector)
        requires
            old(self).framed(),
            is_heading(heading@),
        ensures
            final(self).is_rotated(*old(self), heading@),
    {
        self.heading = heading;
        self.p1 = self.centroid.plus(turn(self.base1, heading));
        self.p2 = self.centroid.plus(turn(self.base2, heading));
        self.p3 = self.centroid.plus(turn(self.base3, heading));
    }

    /// Gives the agent the velocity `velocity`, moves it by that much and
    /// turns it to face where it is going.
    pub fn advance(&mut self, velocity: Vector)
        requires
            old(self).wf(),
            velocity.z == 0,
            velocity@.within(LENGTH_LIMIT as int),
            old(self).centroid@.within(POSITION_LIMIT - LENGTH_LIMIT),
        ensures
            final(self).is_moved(*old(self), velocity@),
    {
        self.velocity = velocity;
        self.centroid = self.centroid.plus(velocity);
        let heading = heading_for(velocity);
        self.rotate(heading);
    }
}

/// Turning a triangle to any heading and then back to the heading it had
/// gives back the very same triangle.
pub proof fn law_rotation_round_trip(start: Boid, there: Boid, back: Boid, heading: Point)
    requires
        start.wf(),
        there.is_rotated(start, heading),
        back.is_rotated(there, start.heading@),
    ensures
        back == start,
{
    assert(back.heading@ == start.heading@);
    assert(back.p1@ == start.p1@);
    assert(back.p2@ == start.p2@);
    assert(back.p3@ == start.p3@);
}

/// The three corners of a triangle have their centroid at the position of
/// the agent: on each axis the sum of the corners and three times the
/// position differ by at most six counts.
pub proof fn law_centroid_follows(b: Boid)
    requires
        b.wf(),
    ensures
        abs(b.p1.x + b.p2.x + b.p3.x - 3 * b.centroid.x) <= 6,
        abs(b.p1.y + b.p2.y + b.p3.y - 3 * b.centroid.y) <= 6,
        b.p1.z == 0 && b.p2.z == 0 && b.p3.z == 0,
{
    let h = b.heading@;
    lemma_component_bound(h, UNIT as int);
    lemma_turned_sum(
        b.base1.x as int, -(b.base1.y as int),
        b.base2.x as int, -(b.base2.y as int),
        b.base3.x as int, -(b.base3.y as int),
        h.y, h.x,
    );
    lemma_turned_sum(
        b.base1.x as int, b.base1.y as int,
        b.base2.x as int, b.base2.y as int,
        b.base3.x as int, b.base3.y as int,
        h.x, h.y,
    );
    assert(b.base1.x * h.y + (-(b.base1.y as int)) * h.x == b.base1.x * h.y - b.base1.y * h.x
        && b.base2.x * h.y + (-(b.base2.y as int)) * h.x == b.base2.x * h.y - b.base2.y * h.x
        && b.base3.x * h.y + (-(b.base3.y as int)) * h.x == b.base3.x * h.y - b.base3.y * h.x)
        by (nonlinear_arith);
}

/// Three offsets that add up to nearly nothing still do so after each is
/// combined with the same two weights and rounded.
proof fn lemma_turned_sum(
    x1: int, y1: int, x2: int, y2: int, x3: int, y3: int, c: int, s: int,
)
    requires
        abs(x1 + x2 + x3) <= 2,
        abs(y1 + y2 + y3) <= 2,
        abs(c) <= UNIT,
        abs(s) <= UNIT,
    ensures
        abs(
            trunc_div(x1 * c + y1 * s, UNIT as int) + trunc_div(x2 * c + y2 * s, UNIT as int)
                + trunc_div(x3 * c + y3 * s, UNIT as int),
        ) <= 6,
{
    let u = UNIT as int;
    let a1 = x1 * c + y1 * s;
    let a2 = x2 * c + y2 * s;
    let a3 = x3 * c + y3 * s;
    let t1 = trunc_div(a1, u);
    let t2 = trunc_div(a2, u);
    let t3 = trunc_div(a3, u);
    lemma_trunc_div_bounds(a1, u);
    lemma_trunc_div_bounds(a2, u);
    lemma_trunc_div_bounds(a3, u);
    assert(a1 - u < t1 * u < a1 + u);
    assert(a2 - u < t2 * u < a2 + u);
    assert(a3 - u < t3 * u < a3 + u);
    let sx = x1 + x2 + x3;
    let sy = y1 + y2 + y3;
    assert(a1 + a2 + a3 == sx * c + sy * s) by (nonlinear_arith)
        requires
            a1 == x1 * c + y1 * s,
            a2 == x2 * c + y2 * s,
            a3 == x3 * c + y3 * s,
            sx == x1 + x2 + x3,
            sy == y1 + y2 + y3,
    ;
    assert(-4 * u <= sx * c + sy * s <= 4 * u) by (nonlinear_arith)
        requires
            -2 <= sx <= 2,
            -2 <= sy <= 2,
            -u <= c <= u,
            -u <= s <= u,
    ;
    let t = t1 + t2 + t3;
    assert(t * u == t1 * u + t2 * u + t3 * u) by (nonlinear_arith)
        requires
            t == t1 + t2 + t3,
    ;
    assert(-7 < t < 7) by (nonlinear_arith)
        requires
            -7 * u < t * u < 7 * u,
            u > 0,
    ;
}

/// Agents closer than this to an edge of the viewport are steered back.
pub const MARGIN: i64 = 80_000_000;

/// What an edge adds to the velocity of an agent inside its margin.
pub const TURN: i64 = 1_000_000;

/// The visible rectangle, from the origin to `(width, height)`.
#[derive(Clone, Copy, PartialEq, Eq, Structural, Debug)]
pub struct Viewport {
    pub width: i64,
    pub height: i64,
}

impl Viewport {
    pub open spec fn wf(self) -> bool {
        0 <= self.width <= VIEW_LIMIT && 0 <= self.height <= VIEW_LIMIT
    }
}

/// Largest extent of a viewport: two to the power 39.
pub const VIEW_LIMIT: i64 = 0x80_0000_0000;

/// Largest speed along one axis that a newly placed agent has: 5 units.
pub const START_SPEED: i64 = 5_000_000;

/// Where an agent may be placed in a viewport and how it may move at first:
/// its first corner inside the viewport, the other two 5 units right and 15
/// up of it and 10 units right of it, facing up, no faster than the starting
/// speed along either axis.
pub open spec fn placed(b: Boid, view: Viewport) -> bool {
    &&& b.wf()
    &&& 0 <= b.p1.x <= view.width
    &&& 0 <= b.p1.y <= view.height
    &&& b.p2@ == b.p1@.plus(Point { x: 5 * UNIT, y: -15 * UNIT, z: 0 })
    &&& b.p3@ == b.p1@.plus(Point { x: 10 * UNIT, y: 0, z: 0 })
    &&& b.heading@ == up()
    &&& b.centroid@ == mean3(b.p1@, b.p2@, b.p3@)
    &&& -START_SPEED <= b.velocity.x <= START_SPEED
    &&& -START_SPEED <= b.velocity.y <= START_SPEED
}

/// What the two edges across one axis add to the velocity of an agent at
/// coordinate `at`, where the far edge is at `extent`.
pub open spec fn edge_turn(at: int, extent: int) -> int {
    (if at < MARGIN {
        TURN as int
    } else {
        0
    }) - (if at > extent - MARGIN {
        TURN as int
    } else {
        0
    })
}

/// The velocity `v` of an agent at `at` after the edges of the viewport
/// have steered it.
pub open spec fn fenced(v: Point, at: Point, view: Viewport) -> Point {
    Point {
        x: v.x + edge_turn(at.x, view.width as int),
        y: v.y + edge_turn(at.y, view.height as int),
        z: v.z,
    }
}

/// Steers the velocity of an agent at `at` back from the edges.
pub fn fence(v: Vector, at: Vector, view: &Viewport) -> (r: Vector)
    requires
        v@.within(STEER_LIMIT as int),
        view.wf(),
    ensures
        r@ == fenced(v@, at@, *view),
        r@.within(STEER_LIMIT + TURN),
{
    let mut r = v;
    if at.x < MARGIN {
        r.x = r.x + TURN;
    }
    if at.x > view.width - MARGIN {
        r.x = r.x - TURN;
    }
    if at.y < MARGIN {
        r.y = r.y + TURN;
    }
    if at.y > view.height - MARGIN {
        r.y = r.y - TURN;
    }
    r
}

/// The velocity that agent `i` takes when it sees the agents `seen`:
/// flocking rules, then the edges, then the speed cap.
pub open spec fn next_velocity(seen: Seq<Boid>, i: int, view: Viewport) -> Point {
    let rules = planar_rules();
    let gathered = tally(bodies_of(seen), i, rules, seen.len() as int);
    fenced(
        steered(seen[i].body(), gathered, Point::zero(), rules),
        seen[i].centroid@,
        view,
    ).capped(rules.max_speed as int)
}

/// Agent `j` of `after` is agent `j` of `before` moved as the rules say,
/// having seen the agents before it already moved.
pub open spec fn follows(before: Seq<Boid>, after: Seq<Boid>, j: int, view: Viewport) -> bool {
    after[j].is_moved(before[j], next_velocity(blend(before, after, j), j, view))
}

/// Capping a planar vector keeps it in the plane.
pub proof fn lemma_capped_flat(p: Point, max: int)
    requires
        p.z == 0,
        max >= 0,
    ensures
        p.capped(max).z == 0,
{
    if p.norm_sq() > max * max {
        assert(max * max >= 0) by (nonlinear_arith);
        lemma_fine_length(p);
        assert(0int * max * (FINE as int) == 0) by (nonlinear_arith);
    }
}

/// A flock of triangular agents.
pub struct Flock {
    pub boids: Vec<Boid>,
}

impl Flock {
    /// Not too many agents, each of them well formed.
    pub open spec fn wf(self) -> bool {
        &&& self.boids@.len() <= MAX_AGENTS
        &&& forall|j: int| 0 <= j < self.boids@.len() ==> (#[trigger] self.boids@[j]).wf()
    }

    /// Every agent can move one step at full speed without leaving the
    /// representable world.
    pub open spec fn roomy(self) -> bool {
        forall|j: int|
            0 <= j < self.boids@.len() ==> (#[trigger] self.boids@[j]).centroid@.within(
                POSITION_LIMIT - LENGTH_LIMIT,
            )
    }

    /// An empty flock.
    pub fn new() -> (f: Flock)
        ensures
            f.wf(),
            f.boids@.len() == 0,
    {
        Flock { boids: Vec::new() }
    }

    /// A flock of `count` agents placed at random in the viewport.
    pub fn spawn(count: usize, view: &Viewport) -> (f: Flock)
        requires
            count <= MAX_AGENTS,
            view.wf(),
        ensures
            f.wf(),
            f.boids@.len() == count,
            forall|j: int| 0 <= j < count ==> placed(#[trigger] f.boids@[j], *view),
    {
        let mut boids: Vec<Boid> = Vec::new();
        let mut i: usize = 0;
        while i < count
            invariant
                i <= count,
                count <= MAX_AGENTS,
                view.wf(),
                boids@.len() == i,
                forall|j: int| 0 <= j < i ==> placed(#[trigger] boids@[j], *view),
            decreases count - i,
        {
            let corner = Vector { x: between(0, view.width), y: between(0, view.height), z: 0 };
            let velocity = Vector {
                x: between(-START_SPEED, START_SPEED),
                y: between(-START_SPEED, START_SPEED),
                z: 0,
            };
            boids.push(Boid::hatch(corner, velocity));
            i = i + 1;
        }
        Flock { boids }
    }

    /// Adds an agent at the end, unless the flock is full; says whether it
    /// did.
    pub fn push(&mut self, boid: Boid) -> (added: bool)
        requires
            old(self).wf(),
            boid.wf(),
        ensures
            final(self).wf(),
            added == (old(self).boids@.len() < MAX_AGENTS),
            added ==> final(self).boids@ == old(self).boids@.push(boid),
            !added ==> final(self).boids@ == old(self).boids@,
    {
        if self.boids.len() < MAX_AGENTS {
            self.boids.push(boid);
            true
        } else {
            false
        }
    }

    /// Whether every agent has room for one more step.
    pub fn has_room(&self) -> (b: bool)
        ensures
            b == self.roomy(),
    {
        let n = self.boids.len();
        let mut j: usize = 0;
        while j < n
            invariant
                n == self.boids@.len(),
                j <= n,
                forall|k: int|
                    0 <= k < j ==> (#[trigger] self.boids@[k]).centroid@.within(
                        POSITION_LIMIT - LENGTH_LIMIT,
                    ),
            decreases n - j,
        {
            let c = self.boids[j].centroid;
            let limit: i64 = POSITION_LIMIT - LENGTH_LIMIT;
            if !(-limit <= c.x && c.x <= limit && -limit <= c.y && c.y <= limit && -limit <= c.z
                && c.z <= limit) {
                return false;
            }
            j = j + 1;
        }
        true
    }

    /// Moves every agent once, in order. Each agent sees the agents before
    /// it where they have moved to and the agents after it where they still
    /// are. No agent ends up faster than the speed cap.
    pub fn step(&mut self, view: &Viewport)
        requires
            old(self).wf(),
            old(self).roomy(),
            view.wf(),
        ensures
            final(self).wf(),
            final(self).boids@.len() == old(self).boids@.len(),
            forall|j: int|
                0 <= j < old(self).boids@.len() ==> #[trigger] follows(
                    old(self).boids@,
                    final(self).boids@,
                    j,
                    *view,
                ),
            forall|j: int|
                0 <= j < final(self).boids@.len() ==> (#[trigger] final(self).boids@[j]).velocity@.norm_sq()
                    <= planar_rules().max_speed * planar_rules().max_speed,
    {
        let ghost before = self.boids@;
        let rules = Rules::planar();
        let n = self.boids.len();
        let mut i: usize = 0;
        while i < n
            invariant
                rules == planar_rules(),
                view.wf(),
                n == before.len(),
                self.boids@.len() == n,
                n <= MAX_AGENTS,
                i <= n,
                forall|j: int| 0 <= j < n ==> (#[trigger] self.boids@[j]).wf(),
                forall|j: int| i <= j < n ==> self.boids@[j] == before[j],
                forall|j: int|
                    i <= j < n ==> (#[trigger] before[j]).centroid@.within(
                        POSITION_LIMIT - LENGTH_LIMIT,
                    ),
                forall|j: int| 0 <= j < i ==> #[trigger] follows(before, self.boids@, j, *view),
                forall|j: int|
                    0 <= j < i ==> (#[trigger] self.boids@[j]).velocity@.norm_sq()
                        <= planar_rules().max_speed * planar_rules().max_speed,
            decreases n - i,
        {
            let ghost seen = self.boids@;
            let ghost bodies = bodies_of(seen);
            proof {
                assert(blend(before, seen, i as int) =~= seen);
                assert forall|j: int| 0 <= j < bodies.len() implies (#[trigger] bodies[j]).wf()
                    && bodies[j].position.z == 0 && bodies[j].velocity.z == 0 by {
                    assert(seen[j].wf());
                }
                assert(bodies_wf(bodies));
            }
            let mut boid = self.boids[i];
            let gathered = scan(&self.boids, i, &rules);
            let body = boid.to_body();
            let wanted = steer(&body, &gathered, Vector::zero(), &rules);
            let turned_back = fence(wanted, boid.centroid, view);
            let velocity = turned_back.capped(rules.max_speed);
            proof {
                lemma_tally_flat(bodies, i as int, rules, n as int);
                lemma_steered_flat(body, gathered@, Point::zero(), rules);
                lemma_capped_flat(turned_back@, rules.max_speed as int);
                lemma_component_bound(velocity@, rules.max_speed as int);
                assert(velocity@ == next_velocity(seen, i as int, *view));
                assert(before[i as int].centroid@.within(POSITION_LIMIT - LENGTH_LIMIT));
            }
            boid.advance(velocity);
            self.boids.set(i, boid);
            proof {
                let now = self.boids@;
                assert forall|j: int| 0 <= j <= i implies #[trigger] follows(
                    before,
                    now,
                    j,
                    *view,
                ) by {
                    assert(blend(before, now, j) =~= blend(before, seen, j));
                    if j < i {
                        assert(follows(before, seen, j, *view));
                        assert(now[j] == seen[j]);
                    }
                }
            }
            i = i + 1;
        }
    }

    /// Moves every agent once if all of them have room for it, and says
    /// whether it did. Without room the flock stays as it is.
    pub fn try_step(&mut self, view: &Viewport) -> (moved: bool)
        requires
            old(self).wf(),
            view.wf(),
        ensures
            final(self).wf(),
            moved == old(self).roomy(),
            !moved ==> final(self).boids@ == old(self).boids@,
            moved ==> final(self).boids@.len() == old(self).boids@.len() && forall|j: int|
                0 <= j < old(self).boids@.len() ==> #[trigger] follows(
                    old(self).boids@,
                    final(self).boids@,
                    j,
                    *view,
                ),
            moved ==> forall|j: int|
                0 <= j < final(self).boids@.len() ==> (#[trigger] final(self).boids@[j]).velocity@.norm_sq()
                    <= planar_rules().max_speed * planar_rules().max_speed,
    {
        if self.has_room() {
            self.step(view);
            true
        } else {
            false
        }
    }
}

} // verus!
