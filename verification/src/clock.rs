//! Pacing of the simulation: one step for each drawn frame, or steps of a
//! fixed length however long a frame takes.

use vstd::prelude::*;

verus! {

/// The length of a fixed step in nanoseconds: a sixtieth of a second.
pub const TICK: u64 = 16_666_667;

/// How simulated time follows real time.
#[derive(Clone, Copy, PartialEq, Eq, Structural, Debug)]
pub enum Timing {
    /// One step for each frame.
    PerFrame,
    /// As many steps of `TICK` as have gone by, the rest carried over.
    Fixed,
}

/// Counts the steps that are due.
#[derive(Clone, Copy, PartialEq, Eq, Structural, Debug)]
pub struct Clock {
    pub timing: Timing,
    /// Time gone by that no step has used yet, in nanoseconds.
    pub carried: u64,
}

impl Clock {
    /// Less than one step is carried over.
    pub open spec fn wf(self) -> bool {
        self.carried < TICK
    }

    /// A clock that has carried nothing over yet.
    pub fn new(timing: Timing) -> (c: Clock)
        ensures
            c.wf(),
            c.timing == timing,
            c.carried == 0,
    {
        Clock { timing, carried: 0 }
    }

    /// Takes note that a frame took `elapsed` nanoseconds and says how many
    /// steps are due. Per frame that is one. With fixed steps it is as many
    /// whole ticks as the time carried over and the frame together hold;
    /// what is left is carried over.
    pub fn frame(&mut self, elapsed: u64) -> (steps: u64)
        requires
            old(self).wf(),
        ensures
            final(self).wf(),
            final(self).timing == old(self).timing,
            old(self).timing == Timing::PerFrame ==> steps == 1 && final(self).carried == old(
                self,
            ).carried,
            old(self).timing == Timing::Fixed ==> steps * TICK + final(self).carried == old(
                self,
            ).carried + elapsed,
    {
        match self.timing {
            Timing::PerFrame => 1,
            Timing::Fixed => {
                let total: u128 = self.carried as u128 + elapsed as u128;
                let steps: u128 = total / 16_666_667;
                let rest: u128 = total % 16_666_667;
                self.carried = rest as u64;
                steps as u64
            },
        }
    }
}

} // verus!
