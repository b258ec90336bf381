//! Turning the raw up/down state of a key, sampled once per tick, into
//! discrete firings: once per press, or with auto-repeat while held.
use vstd::prelude::*;
use crate::time::GameTime;

verus! {

/// Whether a key fired at this sample.
#[derive(Clone, Copy, PartialEq, Eq, Structural, Debug)]
pub enum InputEvent {
    Fire,
    Unchanged,
}

/// Turns samples of a key into firings.
pub trait KeyStateMachine {
    /// Whether a sample at `now` can be taken without leaving the clock's range.
    spec fn ready(&self, now: GameTime) -> bool;

    /// Takes one sample of the key: down or up, at `now`.
    fn update(&mut self, is_down: bool, now: GameTime) -> InputEvent
        requires
            old(self).ready(now),
    ;
}

/// Fires when the key goes down, then again after `first` milliseconds held,
/// then every `continued` milliseconds while it stays down.
pub struct RepeatingKeyStateMachine {
    next_repeat_time: Option<GameTime>,
    first_repeat_duration: u64,
    continued_repeat_duration: u64,
}

impl RepeatingKeyStateMachine {
    /// When the key fires next if held, while it is down.
    pub closed spec fn next_repeat(&self) -> Option<int> {
        match self.next_repeat_time {
            Some(t) => Some(t.since_start as int),
            None => None,
        }
    }

    /// Milliseconds from a press to the first repeat.
    pub closed spec fn first(&self) -> int {
        self.first_repeat_duration as int
    }

    /// Milliseconds between later repeats.
    pub closed spec fn continued(&self) -> int {
        self.continued_repeat_duration as int
    }

    /// A released key with the given repeat delays, in milliseconds.
    pub fn new(first: u64, continued: u64) -> (r: Self)
        ensures
            r.next_repeat() is None,
            r.first() == first,
            r.continued() == continued,
    {
        RepeatingKeyStateMachine {
            next_repeat_time: None,
            first_repeat_duration: first,
            continued_repeat_duration: continued,
        }
    }
}

impl RepeatingKeyStateMachine {
    /// Whether a sample at `now` can be taken (see `ready`).
    pub fn is_ready(&self, now: GameTime) -> (r: bool)
        ensures
            r == self.ready(now),
    {
        let first_ok = now.since_start <= u64::MAX - self.first_repeat_duration;
        match self.next_repeat_time {
            Some(t) => first_ok && t.since_start <= u64::MAX - self.continued_repeat_duration,
            None => first_ok,
        }
    }
}

impl KeyStateMachine for RepeatingKeyStateMachine {
    open spec fn ready(&self, now: GameTime) -> bool {
        &&& now.since_start + self.first() <= u64::MAX
        &&& self.next_repeat() matches Some(t) ==> t + self.continued() <= u64::MAX
    }

    /// A press fires and schedules the first repeat; a held key fires once the
    /// scheduled time has passed and schedules the next; a release cancels.
    fn update(&mut self, is_down: bool, now: GameTime) -> (r: InputEvent)
        ensures
            final(self).first() == old(self).first(),
            final(self).continued() == old(self).continued(),
            match (old(self).next_repeat(), is_down) {
                (None, true) => {
                    &&& final(self).next_repeat() == Some(now.since_start + old(self).first())
                    &&& r == InputEvent::Fire
                },
                (None, false) => final(self).next_repeat() is None && r == InputEvent::Unchanged,
                (Some(t), true) => if t < now.since_start {
                    &&& final(self).next_repeat() == Some(t + old(self).continued())
                    &&& r == InputEvent::Fire
                } else {
                    final(self).next_repeat() == Some(t) && r == InputEvent::Unchanged
                },
                (Some(_), false) => final(self).next_repeat() is None && r
                    == InputEvent::Unchanged,
            },
    {
        match (self.next_repeat_time, is_down) {
            (None, true) => {
                self.next_repeat_time = Some(now + self.first_repeat_duration);
                InputEvent::Fire
            },
            (None, false) => InputEvent::Unchanged,
            (Some(repeat_time), true) => {
                if repeat_time.since_start < now.since_start {
                    self.next_repeat_time = Some(repeat_time + self.continued_repeat_duration);
                    InputEvent::Fire
                } else {
                    InputEvent::Unchanged
                }
            },
            (Some(_), false) => {
                self.next_repeat_time = None;
                InputEvent::Unchanged
            },
        }
    }
}

/// Fires once each time the key goes down.
pub struct SingleKeyStateMachine {
    was_down: bool,
}

impl SingleKeyStateMachine {
    /// Whether the key was down at the last sample.
    pub closed spec fn down(&self) -> bool {
        self.was_down
    }

    /// A released key.
    pub fn new() -> (r: Self)
        ensures
            !r.down(),
    {
        SingleKeyStateMachine { was_down: false }
    }
}

impl KeyStateMachine for SingleKeyStateMachine {
    open spec fn ready(&self, now: GameTime) -> bool {
        true
    }

    /// Fires where the key is down now and was up at the last sample.
    fn update(&mut self, is_down: bool, _now: GameTime) -> (r: InputEvent)
        ensures
            final(self).down() == is_down,
            r == (if is_down && !old(self).down() {
                InputEvent::Fire
            } else {
                InputEvent::Unchanged
            }),
    {
        let result = if is_down && !self.was_down {
            InputEvent::Fire
        } else {
            InputEvent::Unchanged
        };
        self.was_down = is_down;
        result
    }
}

} // verus!
