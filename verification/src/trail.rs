//! Motion trails: for each agent the positions it was last seen at, newest
//! first.

use vstd::prelude::*;
use crate::planar::Flock;
use crate::vector::Vector;

verus! {

/// How many earlier positions a trail keeps when a new one is recorded.
pub const CAPACITY: usize = 20;

/// A trail after `position` was recorded on `points`: the newest `CAPACITY`
/// entries of before, behind the new position.
pub open spec fn recorded(points: Seq<Vector>, position: Vector) -> Seq<Vector> {
    seq![position] + if points.len() > CAPACITY {
        points.take(CAPACITY as int)
    } else {
        points
    }
}

/// The opacity of the trail segment that starts at entry `index`: full at
/// the newest entry, ten less for each entry further back, never below
/// nothing.
pub open spec fn fade(index: int) -> int {
    if 255 - index * 10 >= 0 {
        255 - index * 10
    } else {
        0
    }
}

/// Computes the opacity of the trail segment that starts at entry `index`.
pub fn alpha(index: usize) -> (a: u8)
    ensures
        a == fade(index as int),
{
    if index <= 25 {
        (255 - index * 10) as u8
    } else {
        0
    }
}

/// The positions an agent was last seen at, newest first.
pub struct Trail {
    pub points: Vec<Vector>,
}

/// One piece of a drawn trail.
#[derive(Clone, Copy, PartialEq, Eq, Structural, Debug)]
pub struct Segment {
    pub from: Vector,
    pub to: Vector,
    pub alpha: u8,
}

impl Trail {
    /// A trail never holds more than the entries it keeps and the newest.
    pub open spec fn wf(self) -> bool {
        self.points@.len() <= CAPACITY + 1
    }

    /// The number of segments a trail is drawn with: every entry but the
    /// last two starts one.
    pub open spec fn segments(self) -> int {
        if self.points@.len() > 2 {
            self.points@.len() - 2
        } else {
            0
        }
    }

    /// An empty trail.
    pub fn new() -> (t: Trail)
        ensures
            t.wf(),
            t.points@.len() == 0,
    {
        Trail { points: Vec::new() }
    }

    /// Drops all but the newest `CAPACITY` entries, then puts `position` in
    /// front of them.
    pub fn record(&mut self, position: Vector)
        ensures
            final(self).points@ == recorded(old(self).points@, position),
            final(self).wf(),
            final(self).points@[0] == position,
            old(self).points@.len() < CAPACITY ==> final(self).points@.len() <= CAPACITY,
    {
        self.points.truncate(CAPACITY);
        self.points.insert(0, position);
        proof {
            let kept = if old(self).points@.len() > CAPACITY {
                old(self).points@.take(CAPACITY as int)
            } else {
                old(self).points@
            };
            assert(kept =~= old(self).points@.subrange(0, kept.len() as int));
            assert(self.points@ =~= seq![position] + kept);
        }
    }

    /// How many segments the trail is drawn with.
    pub fn segment_count(&self) -> (n: usize)
        ensures
            n == self.segments(),
    {
        let len = self.points.len();
        if len > 2 {
            len - 2
        } else {
            0
        }
    }

    /// The segment that starts at entry `index`: it runs to the next older
    /// entry and fades with its age.
    pub fn segment(&self, index: usize) -> (s: Segment)
        requires
            index < self.segments(),
        ensures
            s.from == self.points@[index as int],
            s.to == self.points@[index + 1],
            s.alpha == fade(index as int),
    {
        let len = self.points.len();
        assert(index + 2 <= len);
        Segment { from: self.points[index], to: self.points[index + 1], alpha: alpha(index) }
    }
}

/// Records on each trail where the agent it belongs to now is.
pub fn record_all(trails: &mut Vec<Trail>, flock: &Flock)
    requires
        old(trails)@.len() == flock.boids@.len(),
    ensures
        final(trails)@.len() == old(trails)@.len(),
        forall|j: int|
            0 <= j < old(trails)@.len() ==> (#[trigger] final(trails)@[j]).points@ == recorded(
                old(trails)@[j].points@,
                flock.boids@[j].centroid,
            ),
{
    let n = trails.len();
    let mut i: usize = 0;
    while i < n
        invariant
            n == old(trails)@.len(),
            n == flock.boids@.len(),
            trails@.len() == n,
            i <= n,
            forall|j: int| i <= j < n ==> trails@[j] == old(trails)@[j],
            forall|j: int|
                0 <= j < i ==> (#[trigger] trails@[j]).points@ == recorded(
                    old(trails)@[j].points@,
                    flock.boids@[j].centroid,
                ),
        decreases n - i,
    {
        let position = flock.boids[i].centroid;
        trails[i].record(position);
        i = i + 1;
    }
}

/// After any number of recordings a trail is bounded and starts with the
/// position recorded last; while it held fewer than `CAPACITY` entries
/// before, it holds at most `CAPACITY` after.
pub proof fn law_trail_bound(points: Seq<Vector>, position: Vector)
    ensures
        recorded(points, position).len() <= CAPACITY + 1,
        recorded(points, position)[0] == position,
        points.len() < CAPACITY ==> recorded(points, position).len() <= CAPACITY,
        recorded(points, position).len() == if points.len() > CAPACITY {
            CAPACITY + 1
        } else {
            (points.len() + 1) as int
        },
{
}

} // verus!
