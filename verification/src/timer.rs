//! The count of seconds that a game has been in progress.

use crate::cell::GameStatus;
use vstd::prelude::*;

verus! {

/// A counter of the seconds played. Whoever owns the clock calls `tick`
/// once a second and `restart` whenever a new grid is dealt.
#[derive(Debug, Clone, Copy, PartialEq, Eq, Structural)]
pub struct Timer {
    elapsed: u64,
}

impl View for Timer {
    type V = nat;

    closed spec fn view(&self) -> nat {
        self.elapsed as nat
    }
}

impl Timer {
    /// A counter at zero.
    pub fn new() -> (timer: Timer)
        ensures
            timer@ == 0,
    {
        Timer { elapsed: 0 }
    }

    /// One second has passed: the counter goes up by one while the game is
    /// in progress and stands still once it is won or lost. It never goes
    /// down, and stops at the largest value it can hold.
    pub fn tick(&mut self, status: GameStatus)
        ensures
            final(self)@ == if status == GameStatus::InProgress && old(self)@ < u64::MAX {
                old(self)@ + 1
            } else {
                old(self)@
            },
    {
        if status == GameStatus::InProgress && self.elapsed < u64::MAX {
            self.elapsed = self.elapsed + 1;
        }
    }

    /// A new grid has been dealt: the counter goes back to zero.
    pub fn restart(&mut self)
        ensures
            final(self)@ == 0,
    {
        self.elapsed = 0;
    }

    /// The seconds counted so far.
    pub fn elapsed(&self) -> (seconds: u64)
        ensures
            seconds == self@,
    {
        self.elapsed
    }
}

} // verus!
