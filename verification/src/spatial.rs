//! The spatial variant: agents drawn as short segments, kept inside a cube
//! and shy of the camera.

use vstd::prelude::*;
use crate::fixed::lemma_trunc_div_le;
use crate::random::between;
use crate::rules::{bodies_of, bodies_wf, blend, closer, scan, spatial_rules, steer, steered,
    tally, Agent, Body, Rules, MAX_AGENTS, POSITION_LIMIT, PUSH_LIMIT, STEER_LIMIT,
    VELOCITY_LIMIT};
use crate::vector::{lemma_component_bound, lemma_resized_norm, lemma_resized_reach, Point,
    Vector, LENGTH_LIMIT};

verus! {

/// Half the length of the segment an agent is drawn as: 0.2 units.
pub const HALF_LENGTH: i64 = 200_000;

/// Agents at least this far out along an axis are steered back: the cube
/// reaches out 12 units and its margin is 3.5 units wide.
pub const FENCE: i64 = 8_500_000;

/// What a face of the cube adds to the velocity of an agent in its margin.
pub const TURN: i64 = 5_000;

/// The camera repels agents closer than this: 0.5 units.
pub const CAMERA_RADIUS: i64 = 500_000;

/// The number of colours an agent can have.
pub const PALETTE_SIZE: u8 = 7;

/// Newly placed agents lie no further than this from the origin along any
/// axis: 12 units, the reach of the cube.
pub const EXTENT: i64 = 12_000_000;

/// Largest speed along one axis that a newly placed agent has: 0.2 units.
pub const START_SPEED: i64 = 200_000;

/// Where an agent may be placed and how it may move at first: inside the
/// cube, no faster than the starting speed along any axis, its segment
/// along the diagonal.
pub open spec fn placed(b: Boid) -> bool {
    &&& b.wf()
    &&& b.position@.within(EXTENT as int)
    &&& b.velocity@.within(START_SPEED as int)
    &&& b.axis() == (Point { x: HALF_LENGTH as int, y: HALF_LENGTH as int, z: HALF_LENGTH as int })
}

/// The palette index for a number drawn between nothing and the size of the
/// palette: the number itself, but the last index for the size.
pub open spec fn color_for(drawn: int) -> int {
    if drawn >= PALETTE_SIZE {
        PALETTE_SIZE - 1
    } else {
        drawn
    }
}

/// Turns a number drawn between nothing and the size of the palette into a
/// palette index.
pub fn pick_color(drawn: i64) -> (c: u8)
    requires
        0 <= drawn <= PALETTE_SIZE,
    ensures
        c == color_for(drawn as int),
        c < PALETTE_SIZE,
{
    if drawn >= 7 {
        6
    } else {
        drawn as u8
    }
}

/// An agent in space.
#[derive(Clone, Copy, PartialEq, Eq, Structural, Debug)]
pub struct Boid {
    pub position: Vector,
    pub velocity: Vector,
    pub p1: Vector,
    pub p2: Vector,
    /// Index into the palette.
    pub color: u8,
}

impl Boid {
    /// The offset from the position to the first end of the segment.
    pub open spec fn axis(self) -> Point {
        self.p1@.minus(self.position@)
    }

    /// The two ends lie opposite each other about the position, no further
    /// out than half a segment along any axis, and everything is inside the
    /// representable world.
    pub open spec fn wf(self) -> bool {
        &&& self.position@.within(POSITION_LIMIT as int)
        &&& self.velocity@.within(VELOCITY_LIMIT as int)
        &&& self.axis().within(HALF_LENGTH as int)
        &&& self.p2@ == self.position@.minus(self.axis())
        &&& self.color < PALETTE_SIZE
    }

    /// `self` is `before` after it took the velocity `v` and moved by it.
    /// Its segment lies along `v`; an agent at rest keeps the direction it
    /// had.
    pub open spec fn is_moved(self, before: Boid, v: Point) -> bool {
        &&& self.wf()
        &&& self.velocity@ == v
        &&& self.position@ == before.position@.plus(v)
        &&& self.axis() == if v == Point::zero() {
            before.axis()
        } else {
            v.resized(HALF_LENGTH as int)
        }
        &&& self.color == before.color
    }

    /// An agent at `position` with the given velocity and colour, its
    /// segment along the diagonal.
    pub fn new(position: Vector, velocity: Vector, color: u8) -> (b: Boid)
        requires
            position@.within(POSITION_LIMIT as int),
            velocity@.within(VELOCITY_LIMIT as int),
            color < PALETTE_SIZE,
        ensures
            b.wf(),
            b.position == position,
            b.velocity == velocity,
            b.color == color,
            b.axis() == (Point {
                x: HALF_LENGTH as int,
                y: HALF_LENGTH as int,
                z: HALF_LENGTH as int,
            }),
    {
        let axis = Vector { x: HALF_LENGTH, y: HALF_LENGTH, z: HALF_LENGTH };
        Boid {
            position,
            velocity,
            p1: position.plus(axis),
            p2: position.minus(axis),
            color,
        }
    }

    /// Gives the agent the velocity `velocity`, moves it by that much and
    /// lays its segment along the velocity.
    pub fn advance(&mut self, velocity: Vector)
        requires
            old(self).wf(),
            velocity@.within(LENGTH_LIMIT as int),
            old(self).position@.within(POSITION_LIMIT - LENGTH_LIMIT),
        ensures
            final(self).is_moved(*old(self), velocity@),
    {
        let axis = if velocity.x == 0 && velocity.y == 0 && velocity.z == 0 {
            self.p1.minus(self.position)
        } else {
            assert(velocity@.norm_sq() > 0) by (nonlinear_arith)
                requires
                    velocity@.norm_sq() == velocity.x * velocity.x + velocity.y * velocity.y
                        + velocity.z * velocity.z,
                    velocity.x != 0 || velocity.y != 0 || velocity.z != 0,
            ;
            velocity.resized(HALF_LENGTH)
        };
        self.velocity = velocity;
        self.position = self.position.plus(velocity);
        self.p1 = self.position.plus(axis);
        self.p2 = self.position.minus(axis);
    }
}

impl Agent for Boid {
    open spec fn body(&self) -> Body {
        Body { position: self.position, velocity: self.velocity }
    }

    fn to_body(&self) -> (b: Body) {
        Body { position: self.position, velocity: self.velocity }
    }
}

/// After a step at non-zero velocity the two ends of the segment lie on
/// opposite sides of the position, along the velocity, each half a segment
/// from the position: no further, and nearer by five counts at most.
pub proof fn law_segment_follows(before: Boid, after: Boid, v: Point)
    requires
        after.is_moved(before, v),
        v != Point::zero(),
    ensures
        after.p1@ == after.position@.plus(v.resized(HALF_LENGTH as int)),
        after.p2@ == after.position@.minus(v.resized(HALF_LENGTH as int)),
        after.p1@.minus(after.position@).norm_sq() <= HALF_LENGTH * HALF_LENGTH,
        after.p2@.minus(after.position@).norm_sq() <= HALF_LENGTH * HALF_LENGTH,
        after.p1@.minus(after.position@).norm_sq() >= (HALF_LENGTH - 5) * (HALF_LENGTH - 5),
        after.p2@.minus(after.position@).norm_sq() >= (HALF_LENGTH - 5) * (HALF_LENGTH - 5),
{
    assert(v.norm_sq() > 0) by (nonlinear_arith)
        requires
            v.norm_sq() == v.x * v.x + v.y * v.y + v.z * v.z,
            v.x != 0 || v.y != 0 || v.z != 0,
    ;
    lemma_resized_norm(v, HALF_LENGTH as int);
    lemma_resized_reach(v, HALF_LENGTH as int, 5);
    let a = v.resized(HALF_LENGTH as int);
    let b = after.p2@.minus(after.position@);
    assert(b.norm_sq() == a.norm_sq()) by (nonlinear_arith)
        requires
            b.x == -a.x,
            b.y == -a.y,
            b.z == -a.z,
            b.norm_sq() == b.x * b.x + b.y * b.y + b.z * b.z,
            a.norm_sq() == a.x * a.x + a.y * a.y + a.z * a.z,
    ;
}

/// The colour at `index` of the palette, as red, green and blue.
pub fn palette(index: u8) -> (rgb: (u8, u8, u8))
    requires
        index < PALETTE_SIZE,
    ensures
        rgb == palette_entry(index),
{
    if index == 0 {
        (129, 161, 193)
    } else if index == 1 {
        (191, 97, 106)
    } else if index == 2 {
        (208, 135, 112)
    } else if index == 3 {
        (163, 190, 140)
    } else if index == 4 {
        (235, 203, 139)
    } else if index == 5 {
        (143, 188, 187)
    } else {
        (136, 192, 208)
    }
}

/// The palette as a table.
pub open spec fn palette_entry(index: u8) -> (u8, u8, u8) {
    if index == 0 {
        (129u8, 161u8, 193u8)
    } else if index == 1 {
        (191u8, 97u8, 106u8)
    } else if index == 2 {
        (208u8, 135u8, 112u8)
    } else if index == 3 {
        (163u8, 190u8, 140u8)
    } else if index == 4 {
        (235u8, 203u8, 139u8)
    } else if index == 5 {
        (143u8, 188u8, 187u8)
    } else {
        (136u8, 192u8, 208u8)
    }
}

/// What the two faces across one axis add to the velocity of an agent at
/// coordinate `at`.
pub open spec fn face_turn(at: int) -> int {
    (if at <= -FENCE {
        TURN as int
    } else {
        0
    }) - (if at >= FENCE {
        TURN as int
    } else {
        0
    })
}

/// The velocity `v` of an agent at `at` after the faces of the cube have
/// steered it, each axis on its own.
pub open spec fn caged(v: Point, at: Point) -> Point {
    Point { x: v.x + face_turn(at.x), y: v.y + face_turn(at.y), z: v.z + face_turn(at.z) }
}

fn cage_axis(v: i64, at: i64) -> (r: i64)
    requires
        -STEER_LIMIT <= v <= STEER_LIMIT,
    ensures
        r == v + face_turn(at as int),
{
    let mut r = v;
    if at >= FENCE {
        r = r - TURN;
    }
    if at <= -FENCE {
        r = r + TURN;
    }
    r
}

/// Steers the velocity of an agent at `at` back from the faces of the cube.
pub fn cage(v: Vector, at: Vector) -> (r: Vector)
    requires
        v@.within(STEER_LIMIT as int),
    ensures
        r@ == caged(v@, at@),
        r@.within(STEER_LIMIT + TURN),
{
    Vector { x: cage_axis(v.x, at.x), y: cage_axis(v.y, at.y), z: cage_axis(v.z, at.z) }
}

/// What the camera adds to the separation sum of an agent at `at`: nothing
/// from half a unit away, else the offset from the camera weighed 1.3.
pub open spec fn camera_push(at: Point, camera: Point) -> Point {
    if closer(at, camera, CAMERA_RADIUS as int) {
        at.minus(camera).ratio(13, 10)
    } else {
        Point::zero()
    }
}

/// Computes what the camera adds to the separation sum of an agent at `at`.
pub fn push_from(at: Vector, camera: Vector) -> (push: Vector)
    requires
        at@.within(POSITION_LIMIT as int),
        camera@.within(POSITION_LIMIT as int),
    ensures
        push@ == camera_push(at@, camera@),
        push@.within(PUSH_LIMIT as int),
{
    if at.near(camera, CAMERA_RADIUS) {
        let offset = at.minus(camera);
        proof {
            lemma_trunc_div_le(offset.x * 13, 10, 4 * POSITION_LIMIT);
            lemma_trunc_div_le(offset.y * 13, 10, 4 * POSITION_LIMIT);
            lemma_trunc_div_le(offset.z * 13, 10, 4 * POSITION_LIMIT);
        }
        offset.ratio(13, 10)
    } else {
        Vector::zero()
    }
}

/// The velocity that agent `i` takes when it sees the agents `seen` and the
/// camera: flocking rules, then the cube, then the speed cap.
pub open spec fn next_velocity(seen: Seq<Boid>, i: int, camera: Point) -> Point {
    let rules = spatial_rules();
    let gathered = tally(bodies_of(seen), i, rules, seen.len() as int);
    caged(
        steered(seen[i].body(), gathered, camera_push(seen[i].position@, camera), rules),
        seen[i].position@,
    ).capped(rules.max_speed as int)
}

/// Agent `j` of `after` is agent `j` of `before` moved as the rules say,
/// having seen the agents before it already moved.
pub open spec fn follows(before: Seq<Boid>, after: Seq<Boid>, j: int, camera: Point) -> bool {
    after[j].is_moved(before[j], next_velocity(blend(before, after, j), j, camera))
}

/// A flock of agents in space.
pub struct Flock {
    pub boids: Vec<Boid>,
}

impl Flock {
    /// Not too many agents, each of them well formed.
    pub open spec fn wf(self) -> bool {
        &&& self.boids@.len() <= MAX_AGENTS
        &&& forall|j: int| 0 <= j < self.boids@.len() ==> (#[trigger] self.boids@[j]).wf()
    }

    /// Every agent can move one step at full speed without leaving the
    /// representable world.
    pub open spec fn roomy(self) -> bool {
        forall|j: int|
            0 <= j < self.boids@.len() ==> (#[trigger] self.boids@[j]).position@.within(
                POSITION_LIMIT - LENGTH_LIMIT,
            )
    }

    /// An empty flock.
    pub fn new() -> (f: Flock)
        ensures
            f.wf(),
            f.boids@.len() == 0,
    {
        Flock { boids: Vec::new() }
    }

    /// A flock of `count` agents placed at random in the cube, each with a
    /// colour drawn from the palette.
    pub fn spawn(count: usize) -> (f: Flock)
        requires
            count <= MAX_AGENTS,
        ensures
            f.wf(),
            f.boids@.len() == count,
            forall|j: int| 0 <= j < count ==> placed(#[trigger] f.boids@[j]),
    {
        let mut boids: Vec<Boid> = Vec::new();
        let mut i: usize = 0;
        while i < count
            invariant
                i <= count,
                count <= MAX_AGENTS,
                boids@.len() == i,
                forall|j: int| 0 <= j < i ==> placed(#[trigger] boids@[j]),
            decreases count - i,
        {
            let position = Vector {
                x: between(-EXTENT, EXTENT),
                y: between(-EXTENT, EXTENT),
                z: between(-EXTENT, EXTENT),
            };
            let velocity = Vector {
                x: between(-START_SPEED, START_SPEED),
                y: between(-START_SPEED, START_SPEED),
                z: between(-START_SPEED, START_SPEED),
            };
            let color = pick_color(between(0, 7));
            boids.push(Boid::new(position, velocity, color));
            i = i + 1;
        }
        Flock { boids }
    }

    /// Adds an agent at the end, unless the flock is full; says whether it
    /// did.
    pub fn push(&mut self, boid: Boid) -> (added: bool)
        requires
            old(self).wf(),
            boid.wf(),
        ensures
            final(self).wf(),
            added == (old(self).boids@.len() < MAX_AGENTS),
            added ==> final(self).boids@ == old(self).boids@.push(boid),
            !added ==> final(self).boids@ == old(self).boids@,
    {
        if self.boids.len() < MAX_AGENTS {
            self.boids.push(boid);
            true
        } else {
            false
        }
    }

    /// Whether every agent has room for one more step.
    pub fn has_room(&self) -> (b: bool)
        ensures
            b == self.roomy(),
    {
        let n = self.boids.len();
        let mut j: usize = 0;
        while j < n
            invariant
                n == self.boids@.len(),
                j <= n,
                forall|k: int|
                    0 <= k < j ==> (#[trigger] self.boids@[k]).position@.within(
                        POSITION_LIMIT - LENGTH_LIMIT,
                    ),
            decreases n - j,
        {
            let c = self.boids[j].position;
            let limit: i64 = POSITION_LIMIT - LENGTH_LIMIT;
            if !(-limit <= c.x && c.x <= limit && -limit <= c.y && c.y <= limit && -limit <= c.z
                && c.z <= limit) {
                return false;
            }
            j = j + 1;
        }
        true
    }

    /// Moves every agent once, in order. Each agent sees the agents before
    /// it where they have moved to and the agents after it where they still
    /// are. No agent ends up faster than the speed cap.
    pub fn step(&mut self, camera: Vector)
        requires
            old(self).wf(),
            old(self).roomy(),
            camera@.within(POSITION_LIMIT as int),
        ensures
            final(self).wf(),
            final(self).boids@.len() == old(self).boids@.len(),
            forall|j: int|
                0 <= j < old(self).boids@.len() ==> #[trigger] follows(
                    old(self).boids@,
                    final(self).boids@,
                    j,
                    camera@,
                ),
            forall|j: int|
                0 <= j < final(self).boids@.len() ==> (#[trigger] final(self).boids@[j]).velocity@.norm_sq()
                    <= spatial_rules().max_speed * spatial_rules().max_speed,
    {
        let ghost before = self.boids@;
        let rules = Rules::spatial();
        let n = self.boids.len();
        let mut i: usize = 0;
        while i < n
            invariant
                rules == spatial_rules(),
                camera@.within(POSITION_LIMIT as int),
                n == before.len(),
                self.boids@.len() == n,
                n <= MAX_AGENTS,
                i <= n,
                forall|j: int| 0 <= j < n ==> (#[trigger] self.boids@[j]).wf(),
                forall|j: int| i <= j < n ==> self.boids@[j] == before[j],
                forall|j: int|
                    i <= j < n ==> (#[trigger] before[j]).position@.within(
                        POSITION_LIMIT - LENGTH_LIMIT,
                    ),
                forall|j: int| 0 <= j < i ==> #[trigger] follows(before, self.boids@, j, camera@),
                forall|j: int|
                    0 <= j < i ==> (#[trigger] self.boids@[j]).velocity@.norm_sq()
                        <= spatial_rules().max_speed * spatial_rules().max_speed,
            decreases n - i,
        {
            let ghost seen = self.boids@;
            let ghost bodies = bodies_of(seen);
            proof {
                assert(blend(before, seen, i as int) =~= seen);
                assert forall|j: int| 0 <= j < bodies.len() implies (#[trigger] bodies[j]).wf() by {
                    assert(seen[j].wf());
                }
                assert(bodies_wf(bodies));
            }
            let mut boid = self.boids[i];
            let gathered = scan(&self.boids, i, &rules);
            let body = boid.to_body();
            let push = push_from(boid.position, camera);
            let wanted = steer(&body, &gathered, push, &rules);
            let turned_back = cage(wanted, boid.position);
            let velocity = turned_back.capped(rules.max_speed);
            proof {
                lemma_component_bound(velocity@, rules.max_speed as int);
                assert(velocity@ == next_velocity(seen, i as int, camera@));
                assert(before[i as int].position@.within(POSITION_LIMIT - LENGTH_LIMIT));
            }
            boid.advance(velocity);
            self.boids.set(i, boid);
            proof {
                let now = self.boids@;
                assert forall|j: int| 0 <= j <= i implies #[trigger] follows(
                    before,
                    now,
                    j,
                    camera@,
                ) by {
                    assert(blend(before, now, j) =~= blend(before, seen, j));
                    if j < i {
                        assert(follows(before, seen, j, camera@));
                        assert(now[j] == seen[j]);
                    }
                }
            }
            i = i + 1;
        }
    }

    /// Moves every agent once if all of them have room for it, and says
    /// whether it did. Without room the flock stays as it is.
    pub fn try_step(&mut self, camera: Vector) -> (moved: bool)
        requires
            old(self).wf(),
            camera@.within(POSITION_LIMIT as int),
        ensures
            final(self).wf(),
            moved == old(self).roomy(),
            !moved ==> final(self).boids@ == old(self).boids@,
            moved ==> final(self).boids@.len() == old(self).boids@.len() && forall|j: int|
                0 <= j < old(self).boids@.len() ==> #[trigger] follows(
                    old(self).boids@,
                    final(self).boids@,
                    j,
                    camera@,
                ),
            moved ==> forall|j: int|
                0 <= j < final(self).boids@.len() ==> (#[trigger] final(self).boids@[j]).velocity@.norm_sq()
                    <= spatial_rules().max_speed * spatial_rules().max_speed,
    {
        if self.has_room() {
            self.step(camera);
            true
        } else {
            false
        }
    }
}

} // verus!
