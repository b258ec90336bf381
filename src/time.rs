//! Points in game time, counted in whole milliseconds since the session began.
use vstd::prelude::*;

verus! {

/// A point in game time: milliseconds since the session began.
#[derive(Clone, Copy, PartialEq, Eq, Structural, PartialOrd, Ord, Debug)]
pub struct GameTime {
    pub since_start: u64,
}

impl GameTime {
    /// The point `millis` milliseconds after the start.
    pub fn from_millis(millis: u64) -> (r: GameTime)
        ensures
            r.since_start == millis,
    {
        GameTime { since_start: millis }
    }

    /// Milliseconds since the start.
    pub fn millis(&self) -> (r: u64)
        ensures
            r == self.since_start,
    {
        self.since_start
    }
}

/// A later point: `millis` milliseconds on.
impl core::ops::Add<u64> for GameTime {
    type Output = GameTime;

    fn add(self, millis: u64) -> (r: GameTime)
        ensures
            r.since_start == self.since_start + millis,
    {
        GameTime { since_start: self.since_start + millis }
    }
}

impl vstd::std_specs::ops::AddSpecImpl<u64> for GameTime {
    open spec fn obeys_add_spec() -> bool {
        true
    }

    open spec fn add_req(self, rhs: u64) -> bool {
        self.since_start + rhs <= u64::MAX
    }

    open spec fn add_spec(self, rhs: u64) -> GameTime {
        GameTime { since_start: (self.since_start + rhs) as u64 }
    }
}

/// The milliseconds from `other` to `self`, the later one.
impl core::ops::Sub<GameTime> for GameTime {
    type Output = u64;

    fn sub(self, other: GameTime) -> (r: u64)
        ensures
            r == self.since_start - other.since_start,
    {
        self.since_start - other.since_start
    }
}

impl vstd::std_specs::ops::SubSpecImpl<GameTime> for GameTime {
    open spec fn obeys_sub_spec() -> bool {
        true
    }

    open spec fn sub_req(self, rhs: GameTime) -> bool {
        rhs.since_start <= self.since_start
    }

    open spec fn sub_spec(self, rhs: GameTime) -> u64 {
        (self.since_start - rhs.since_start) as u64
    }
}

} // verus!
