//! The flocking rules: which neighbours an agent sees and how they change its
//! velocity.

use vstd::prelude::*;
use crate::fixed::{lemma_trunc_div_bounds, lemma_trunc_div_le, trunc_div};
use crate::vector::{lemma_component_bound, Point, Vector, LENGTH_LIMIT, REACH};

verus! {

/// Largest coordinate an agent may have: two to the power 40.
pub const POSITION_LIMIT: i64 = 0x100_0000_0000;

/// Largest velocity component an agent may have: two to the power 32.
pub const VELOCITY_LIMIT: i64 = 0x1_0000_0000;

/// Largest separation radius: two to the power 26.
pub const RADIUS_LIMIT: i64 = 0x400_0000;

/// Largest number of agents in one flock.
pub const MAX_AGENTS: usize = 65_536;

/// Largest extra repulsion that can be folded into the separation sum: two
/// to the power 42.
pub const PUSH_LIMIT: i64 = 0x400_0000_0000;

/// Largest velocity component the rules can produce before the speed cap:
/// two to the power 45.
pub const STEER_LIMIT: i64 = 0x2000_0000_0000;

/// Separation and alignment both weigh one twentieth.
pub const BLEND_DIVISOR: i64 = 20;

/// Position and velocity of one agent.
#[derive(Clone, Copy, PartialEq, Eq, Structural, Debug)]
pub struct Body {
    pub position: Vector,
    pub velocity: Vector,
}

impl Body {
    /// The agent lies inside the representable world.
    pub open spec fn wf(self) -> bool {
        &&& self.position@.within(POSITION_LIMIT as int)
        &&& self.velocity@.within(VELOCITY_LIMIT as int)
    }
}

/// Anything that moves as a body and can be seen by its neighbours.
pub trait Agent: Sized {
    /// The position and velocity of the agent.
    spec fn body(&self) -> Body;

    /// Reads the position and velocity of the agent.
    fn to_body(&self) -> (b: Body)
        ensures
            b == self.body(),
    ;
}

impl Agent for Body {
    open spec fn body(&self) -> Body {
        *self
    }

    fn to_body(&self) -> (b: Body) {
        *self
    }
}

/// The bodies of a sequence of agents, in order.
pub open spec fn bodies_of<A: Agent>(agents: Seq<A>) -> Seq<Body> {
    Seq::new(agents.len(), |j: int| agents[j].body())
}

/// The constants that tell one variant of the simulation from another.
#[derive(Clone, Copy, PartialEq, Eq, Structural, Debug)]
pub struct Rules {
    /// Neighbours closer than this attract and align.
    pub cohere_radius: i64,
    /// Neighbours closer than this repel.
    pub separate_radius: i64,
    /// Cohesion weighs one over this.
    pub cohesion_divisor: i64,
    /// The speed cap.
    pub max_speed: i64,
}

impl Rules {
    pub open spec fn wf(self) -> bool {
        &&& 0 <= self.cohere_radius <= REACH
        &&& 0 <= self.separate_radius <= RADIUS_LIMIT
        &&& 1 <= self.cohesion_divisor
        &&& 0 <= self.max_speed <= LENGTH_LIMIT
    }

    /// The planar variant: radii 75 and 25, cohesion 0.005, speed cap 5.5.
    pub fn planar() -> (r: Rules)
        ensures
            r.wf(),
            r == planar_rules(),
    {
        Rules {
            cohere_radius: 75_000_000,
            separate_radius: 25_000_000,
            cohesion_divisor: 200,
            max_speed: 5_500_000,
        }
    }

    /// The spatial variant: radii 2.7 and 0.5, cohesion 0.001, speed cap 0.2.
    pub fn spatial() -> (r: Rules)
        ensures
            r.wf(),
            r == spatial_rules(),
    {
        Rules {
            cohere_radius: 2_700_000,
            separate_radius: 500_000,
            cohesion_divisor: 1000,
            max_speed: 200_000,
        }
    }
}

/// The constants of the planar variant.
pub open spec fn planar_rules() -> Rules {
    Rules {
        cohere_radius: 75_000_000,
        separate_radius: 25_000_000,
        cohesion_divisor: 200,
        max_speed: 5_500_000,
    }
}

/// The constants of the spatial variant.
pub open spec fn spatial_rules() -> Rules {
    Rules {
        cohere_radius: 2_700_000,
        separate_radius: 500_000,
        cohesion_divisor: 1000,
        max_speed: 200_000,
    }
}

/// The sequence that agent `i` sees while a step is under way: the agents
/// before it have already moved, the others have not.
pub open spec fn blend<A>(before: Seq<A>, after: Seq<A>, i: int) -> Seq<A> {
    Seq::new(
        before.len(),
        |j: int|
            if j < i {
                after[j]
            } else {
                before[j]
            },
    )
}

/// Whether two points are closer than `radius`.
pub open spec fn closer(a: Point, b: Point, radius: int) -> bool {
    a.minus(b).norm_sq() < radius * radius
}

/// What one agent gathers from the others: how many attract it, the sums of
/// their positions and velocities, and the sum of the offsets from those
/// that repel it.
pub struct Tally {
    pub count: nat,
    pub center: Point,
    pub velocity: Point,
    pub repulsion: Point,
}

impl Tally {
    pub open spec fn zero() -> Tally {
        Tally { count: 0, center: Point::zero(), velocity: Point::zero(), repulsion: Point::zero() }
    }

    /// The tally after agent `a` has looked at `b`.
    pub open spec fn with(self, a: Body, b: Body, rules: Rules) -> Tally {
        let attracts = closer(a.position@, b.position@, rules.cohere_radius as int);
        let repels = closer(a.position@, b.position@, rules.separate_radius as int);
        Tally {
            count: if attracts {
                self.count + 1
            } else {
                self.count
            },
            center: if attracts {
                self.center.plus(b.position@)
            } else {
                self.center
            },
            velocity: if attracts {
                self.velocity.plus(b.velocity@)
            } else {
                self.velocity
            },
            repulsion: if repels {
                self.repulsion.plus(a.position@.minus(b.position@))
            } else {
                self.repulsion
            },
        }
    }
}

/// What agent `i` gathers from the first `n` agents, itself left out.
pub open spec fn tally(bodies: Seq<Body>, i: int, rules: Rules, n: int) -> Tally
    decreases n,
{
    if n <= 0 {
        Tally::zero()
    } else if n - 1 == i {
        tally(bodies, i, rules, n - 1)
    } else {
        tally(bodies, i, rules, n - 1).with(bodies[i], bodies[n - 1], rules)
    }
}

/// The velocity of `body` after separation, cohesion and alignment, given
/// what it gathered and an extra repulsion `push` that joins the separation
/// sum.
pub open spec fn steered(body: Body, t: Tally, push: Point, rules: Rules) -> Point {
    let parted = body.velocity@.plus(t.repulsion.plus(push).ratio(1, BLEND_DIVISOR as int));
    if t.count > 0 {
        let center = t.center.ratio(1, t.count as int);
        let mean = t.velocity.ratio(1, t.count as int);
        let drawn = parted.plus(
            center.minus(body.position@).ratio(1, rules.cohesion_divisor as int),
        );
        drawn.plus(mean.minus(drawn).ratio(1, BLEND_DIVISOR as int))
    } else {
        parted
    }
}

/// The executable form of a tally.
#[derive(Clone, Copy, Debug)]
pub struct Scan {
    pub count: usize,
    pub center: Vector,
    pub velocity: Vector,
    pub repulsion: Vector,
}

impl View for Scan {
    type V = Tally;

    open spec fn view(&self) -> Tally {
        Tally {
            count: self.count as nat,
            center: self.center@,
            velocity: self.velocity@,
            repulsion: self.repulsion@,
        }
    }
}

/// The sums of a tally stay in proportion to the number of agents seen.
pub open spec fn tally_bounded(t: Tally, rules: Rules, n: int) -> bool {
    &&& t.count <= n
    &&& t.center.within(t.count * POSITION_LIMIT)
    &&& t.velocity.within(t.count * VELOCITY_LIMIT)
    &&& t.repulsion.within(n * rules.separate_radius)
}

/// A flock that the rules can be applied to: not too many agents, each inside
/// the representable world.
pub open spec fn bodies_wf(bodies: Seq<Body>) -> bool {
    &&& bodies.len() <= MAX_AGENTS
    &&& forall|j: int| 0 <= j < bodies.len() ==> (#[trigger] bodies[j]).wf()
}

/// Looking at one more agent keeps a tally bounded.
pub proof fn lemma_with_bounded(t: Tally, a: Body, b: Body, rules: Rules, n: int)
    requires
        tally_bounded(t, rules, n),
        n >= 0,
        a.wf(),
        b.wf(),
        rules.wf(),
    ensures
        tally_bounded(t.with(a, b, rules), rules, n + 1),
{
    let r = rules.separate_radius as int;
    let d = a.position@.minus(b.position@);
    assert(t.count * POSITION_LIMIT + POSITION_LIMIT == (t.count + 1) * POSITION_LIMIT
        && t.count * VELOCITY_LIMIT + VELOCITY_LIMIT == (t.count + 1) * VELOCITY_LIMIT
        && n * r + r == (n + 1) * r) by (nonlinear_arith);
    assert(r >= 0);
    if closer(a.position@, b.position@, r) {
        lemma_component_bound(d, r);
    }
}

/// Gathers what agent `i` sees of the whole flock.
pub fn scan<A: Agent>(agents: &Vec<A>, i: usize, rules: &Rules) -> (s: Scan)
    requires
        bodies_wf(bodies_of(agents@)),
        i < agents.len(),
        rules.wf(),
    ensures
        s@ == tally(bodies_of(agents@), i as int, *rules, agents.len() as int),
        tally_fits(s@),
{
    let ghost bodies = bodies_of(agents@);
    let me = agents[i].to_body();
    let n = agents.len();
    let mut s = Scan {
        count: 0,
        center: Vector::zero(),
        velocity: Vector::zero(),
        repulsion: Vector::zero(),
    };
    let mut j: usize = 0;
    while j < n
        invariant
            bodies == bodies_of(agents@),
            bodies_wf(bodies),
            n == agents.len(),
            i < n,
            j <= n,
            rules.wf(),
            me == bodies[i as int],
            s@ == tally(bodies, i as int, *rules, j as int),
            tally_bounded(s@, *rules, j as int),
        decreases n - j,
    {
        if j != i {
            let other = agents[j].to_body();
            proof {
                assert(other == bodies[j as int]);
                lemma_with_bounded(s@, me, other, *rules, j as int);
                lemma_sum_limits(s@, *rules, j as int);
                assert(me.wf() && other.wf());
            }
            if me.position.near(other.position, rules.cohere_radius) {
                s.center = s.center.plus(other.position);
                s.velocity = s.velocity.plus(other.velocity);
                s.count = s.count + 1;
            }
            if me.position.near(other.position, rules.separate_radius) {
                s.repulsion = s.repulsion.plus(me.position.minus(other.position));
            }
        } else {
            assert(tally_bounded(s@, *rules, j + 1)) by (nonlinear_arith)
                requires
                    tally_bounded(s@, *rules, j as int),
                    rules.separate_radius >= 0,
            ;
        }
        j = j + 1;
    }
    proof {
        lemma_sum_limits(s@, *rules, n as int);
    }
    s
}

/// Bounded tallies of a flock of admissible size have sums that fit their
/// storage with room for one more term.
pub proof fn lemma_sum_limits(t: Tally, rules: Rules, n: int)
    requires
        tally_bounded(t, rules, n),
        0 <= n <= MAX_AGENTS,
        rules.wf(),
    ensures
        t.center.within(MAX_AGENTS * POSITION_LIMIT),
        t.velocity.within(MAX_AGENTS * VELOCITY_LIMIT),
        t.repulsion.within(MAX_AGENTS * RADIUS_LIMIT),
{
    assert(t.count * POSITION_LIMIT <= MAX_AGENTS * POSITION_LIMIT && t.count * VELOCITY_LIMIT
        <= MAX_AGENTS * VELOCITY_LIMIT) by (nonlinear_arith)
        requires
            0 <= t.count <= MAX_AGENTS,
    ;
    assert(n * rules.separate_radius <= MAX_AGENTS * RADIUS_LIMIT) by (nonlinear_arith)
        requires
            0 <= n <= MAX_AGENTS,
            0 <= rules.separate_radius <= RADIUS_LIMIT,
    ;
}

/// A tally whose sums fit their storage: what `scan` hands out for a flock
/// of admissible size.
pub open spec fn tally_fits(t: Tally) -> bool {
    &&& t.count <= MAX_AGENTS
    &&& t.center.within(t.count * POSITION_LIMIT)
    &&& t.velocity.within(t.count * VELOCITY_LIMIT)
    &&& t.repulsion.within(MAX_AGENTS * RADIUS_LIMIT)
}

/// Dividing a vector by a positive number does not lengthen any component.
pub proof fn lemma_ratio_shrinks(p: Point, den: int, limit: int)
    requires
        den > 0,
        p.within(limit),
    ensures
        p.ratio(1, den).within(limit),
{
    lemma_trunc_div_bounds(p.x * 1, den);
    lemma_trunc_div_bounds(p.y * 1, den);
    lemma_trunc_div_bounds(p.z * 1, den);
}

/// The mean of `count` vectors within a limit is within that limit.
pub proof fn lemma_mean_within(p: Point, count: int, limit: int)
    requires
        count > 0,
        limit >= 0,
        p.within(count * limit),
    ensures
        p.ratio(1, count).within(limit),
{
    assert(count * limit == limit * count) by (nonlinear_arith);
    lemma_trunc_div_le(p.x * 1, count, limit);
    lemma_trunc_div_le(p.y * 1, count, limit);
    lemma_trunc_div_le(p.z * 1, count, limit);
}

/// Divides a vector by a positive number, keeping the bound on its parts.
fn divided(v: Vector, den: i64, Ghost(limit): Ghost<int>) -> (r: Vector)
    requires
        den > 0,
        v@.within(limit),
        limit <= i64::MAX,
    ensures
        r@ == v@.ratio(1, den as int),
        r@.within(limit),
{
    proof {
        lemma_ratio_shrinks(v@, den as int, limit);
    }
    v.ratio(1, den)
}

/// Divides a sum of `count` vectors by `count`.
fn averaged(v: Vector, count: i64, Ghost(limit): Ghost<int>) -> (r: Vector)
    requires
        count > 0,
        0 <= limit <= i64::MAX,
        v@.within(count * limit),
    ensures
        r@ == v@.ratio(1, count as int),
        r@.within(limit),
{
    proof {
        lemma_mean_within(v@, count as int, limit);
    }
    v.ratio(1, count)
}

/// Adds two vectors, adding the bounds on their parts.
fn summed(a: Vector, b: Vector, Ghost(la): Ghost<int>, Ghost(lb): Ghost<int>) -> (r: Vector)
    requires
        a@.within(la),
        b@.within(lb),
        la + lb <= i64::MAX,
    ensures
        r@ == a@.plus(b@),
        r@.within(la + lb),
{
    a.plus(b)
}

/// Subtracts two vectors, adding the bounds on their parts.
fn differed(a: Vector, b: Vector, Ghost(la): Ghost<int>, Ghost(lb): Ghost<int>) -> (r: Vector)
    requires
        a@.within(la),
        b@.within(lb),
        la + lb <= i64::MAX,
    ensures
        r@ == a@.minus(b@),
        r@.within(la + lb),
{
    a.minus(b)
}

/// Applies separation, cohesion and alignment to the velocity of `body`.
pub fn steer(body: &Body, s: &Scan, push: Vector, rules: &Rules) -> (v: Vector)
    requires
        body.wf(),
        rules.wf(),
        tally_fits(s@),
        push@.within(PUSH_LIMIT as int),
    ensures
        v@ == steered(*body, s@, push@, *rules),
        v@.within(STEER_LIMIT as int),
{
    let ghost far: int = 0x800_0000_0000;
    let ghost pos: int = 0x100_0000_0000;
    let ghost vel: int = 0x1_0000_0000;
    assert(MAX_AGENTS * RADIUS_LIMIT + PUSH_LIMIT == far);
    let away = summed(s.repulsion, push, Ghost(far - PUSH_LIMIT), Ghost(PUSH_LIMIT as int));
    let nudge = divided(away, BLEND_DIVISOR, Ghost(far));
    let parted = summed(body.velocity, nudge, Ghost(vel), Ghost(far));
    if s.count > 0 {
        let count: i64 = s.count as i64;
        let center = averaged(s.center, count, Ghost(pos));
        let mean = averaged(s.velocity, count, Ghost(vel));
        let toward = differed(center, body.position, Ghost(pos), Ghost(pos));
        let pull = divided(toward, rules.cohesion_divisor, Ghost(2 * pos));
        let drawn = summed(parted, pull, Ghost(vel + far), Ghost(2 * pos));
        let along = differed(mean, drawn, Ghost(vel), Ghost(vel + far + 2 * pos));
        let turn = divided(along, BLEND_DIVISOR, Ghost(2 * vel + far + 2 * pos));
        let v = summed(drawn, turn, Ghost(vel + far + 2 * pos), Ghost(2 * vel + far + 2 * pos));
        assert(v@.within(3 * vel + 2 * far + 4 * pos));
        v
    } else {
        parted
    }
}

/// An agent with no other agent inside either radius gathers nothing.
pub proof fn lemma_tally_alone(bodies: Seq<Body>, i: int, rules: Rules, n: int)
    requires
        0 <= i < bodies.len(),
        n <= bodies.len(),
        forall|j: int|
            0 <= j < n && j != i ==> !closer(
                bodies[i].position@,
                (#[trigger] bodies[j]).position@,
                rules.cohere_radius as int,
            ) && !closer(bodies[i].position@, bodies[j].position@, rules.separate_radius as int),
    ensures
        tally(bodies, i, rules, n) == Tally::zero(),
    decreases n,
{
    if n > 0 {
        lemma_tally_alone(bodies, i, rules, n - 1);
    }
}

/// An agent whose only neighbour `k` attracts without repelling gathers
/// exactly that neighbour's position and velocity.
pub proof fn lemma_tally_single(bodies: Seq<Body>, i: int, k: int, rules: Rules, n: int)
    requires
        0 <= i < bodies.len(),
        0 <= k < bodies.len(),
        k != i,
        n <= bodies.len(),
        closer(bodies[i].position@, bodies[k].position@, rules.cohere_radius as int),
        !closer(bodies[i].position@, bodies[k].position@, rules.separate_radius as int),
        forall|j: int|
            0 <= j < n && j != i && j != k ==> !closer(
                bodies[i].position@,
                (#[trigger] bodies[j]).position@,
                rules.cohere_radius as int,
            ) && !closer(bodies[i].position@, bodies[j].position@, rules.separate_radius as int),
    ensures
        tally(bodies, i, rules, n) == if n > k {
            Tally {
                count: 1,
                center: bodies[k].position@,
                velocity: bodies[k].velocity@,
                repulsion: Point::zero(),
            }
        } else {
            Tally::zero()
        },
    decreases n,
{
    if n > 0 {
        lemma_tally_single(bodies, i, k, rules, n - 1);
    }
}

/// Without neighbours inside either radius, and without extra repulsion, the
/// flocking rules leave the velocity exactly as it was.
pub proof fn law_alone_keeps_velocity(bodies: Seq<Body>, i: int, rules: Rules)
    requires
        0 <= i < bodies.len(),
        forall|j: int|
            0 <= j < bodies.len() && j != i ==> !closer(
                bodies[i].position@,
                (#[trigger] bodies[j]).position@,
                rules.cohere_radius as int,
            ) && !closer(bodies[i].position@, bodies[j].position@, rules.separate_radius as int),
    ensures
        steered(
            bodies[i],
            tally(bodies, i, rules, bodies.len() as int),
            Point::zero(),
            rules,
        ) == bodies[i].velocity@,
{
    lemma_tally_alone(bodies, i, rules, bodies.len() as int);
}

/// With exactly one neighbour, at a distance that attracts but does not
/// repel, the rules add no separation term: the velocity first gains the
/// offset to the neighbour weighed by the cohesion factor, and then one
/// twentieth of what the neighbour's velocity differs from that.
pub proof fn law_single_neighbour(bodies: Seq<Body>, i: int, k: int, rules: Rules)
    requires
        0 <= i < bodies.len(),
        0 <= k < bodies.len(),
        k != i,
        rules.cohesion_divisor >= 1,
        closer(bodies[i].position@, bodies[k].position@, rules.cohere_radius as int),
        !closer(bodies[i].position@, bodies[k].position@, rules.separate_radius as int),
        forall|j: int|
            0 <= j < bodies.len() && j != i && j != k ==> !closer(
                bodies[i].position@,
                (#[trigger] bodies[j]).position@,
                rules.cohere_radius as int,
            ) && !closer(bodies[i].position@, bodies[j].position@, rules.separate_radius as int),
    ensures
        ({
            let me = bodies[i];
            let other = bodies[k];
            let drawn = me.velocity@.plus(
                other.position@.minus(me.position@).ratio(1, rules.cohesion_divisor as int),
            );
            steered(me, tally(bodies, i, rules, bodies.len() as int), Point::zero(), rules)
                == drawn.plus(other.velocity@.minus(drawn).ratio(1, BLEND_DIVISOR as int))
        }),
{
    lemma_tally_single(bodies, i, k, rules, bodies.len() as int);
}

/// Agents that all lie and move in the plane `z = 0` gather nothing out of
/// it.
pub proof fn lemma_tally_flat(bodies: Seq<Body>, i: int, rules: Rules, n: int)
    requires
        0 <= i < bodies.len(),
        n <= bodies.len(),
        forall|j: int|
            0 <= j < bodies.len() ==> (#[trigger] bodies[j]).position.z == 0
                && bodies[j].velocity.z == 0,
    ensures
        tally(bodies, i, rules, n).center.z == 0,
        tally(bodies, i, rules, n).velocity.z == 0,
        tally(bodies, i, rules, n).repulsion.z == 0,
    decreases n,
{
    if n > 0 {
        lemma_tally_flat(bodies, i, rules, n - 1);
        assert(bodies[i].position.z == 0);
        assert(bodies[n - 1].position.z == 0);
    }
}

/// In the plane, the rules give a velocity in the plane.
pub proof fn lemma_steered_flat(body: Body, t: Tally, push: Point, rules: Rules)
    requires
        body.position.z == 0,
        body.velocity.z == 0,
        t.center.z == 0,
        t.velocity.z == 0,
        t.repulsion.z == 0,
        push.z == 0,
        rules.cohesion_divisor >= 1,
    ensures
        steered(body, t, push, rules).z == 0,
{
    assert(trunc_div(0int * 1, BLEND_DIVISOR as int) == 0);
    if t.count > 0 {
        assert(trunc_div(0int * 1, t.count as int) == 0) by (nonlinear_arith)
            requires
                t.count > 0,
        ;
        assert(trunc_div(0int * 1, rules.cohesion_divisor as int) == 0) by (nonlinear_arith)
            requires
                rules.cohesion_divisor >= 1,
        ;
    }
}

} // verus!
