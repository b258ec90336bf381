//! The grace period a grounded piece gets before it locks, with a bounded
//! number of extensions.
use vstd::prelude::*;
use crate::controlled::DropResult;
use crate::time::GameTime;

verus! {

/// Grounded time, in milliseconds, that a piece may exceed before it locks.
pub const LOCK_DELAY: u64 = 500;

/// How many times movement may restart the grace period of one piece.
pub const ALLOWED_RESETS: u32 = 5;

/// Accumulated grounded time of one piece.
pub struct LockDelay {
    accumulated_time: u64,
    prev_lock_time: Option<GameTime>,
    num_resets: u32,
}

/// The state of a `LockDelay` as numbers.
pub ghost struct LockDelayView {
    /// Grounded milliseconds counted so far.
    pub accumulated: int,
    /// Time of the last grounded sample, if any since the last restart.
    pub prev: Option<int>,
    /// Restarts used so far.
    pub resets: int,
}

impl LockDelayView {
    /// The state of a fresh piece.
    pub open spec fn initial() -> LockDelayView {
        LockDelayView { accumulated: 0, prev: None, resets: 0 }
    }

    /// The count only runs while there is a sample, never ahead of it, and the
    /// restarts stay within their cap.
    pub open spec fn wf(self) -> bool {
        &&& self.accumulated >= 0
        &&& self.prev matches Some(p) ==> 0 <= self.accumulated <= p
        &&& self.prev is None ==> self.accumulated == 0
        &&& 0 <= self.resets <= ALLOWED_RESETS
    }

    /// Whether a sample at `now` is not earlier than the last one.
    pub open spec fn accepts(self, now: int) -> bool {
        self.prev matches Some(p) ==> p <= now
    }

    /// The state after a grounded sample at `now`: the time since the previous
    /// sample, if any, is added, and `now` becomes the previous sample.
    pub open spec fn consumed(self, now: int) -> LockDelayView {
        LockDelayView {
            accumulated: match self.prev {
                Some(p) => self.accumulated + (now - p),
                None => self.accumulated,
            },
            prev: Some(now),
            resets: self.resets,
        }
    }

    /// Whether the piece must lock: the count has passed the threshold.
    pub open spec fn verdict(self) -> DropResult {
        if self.accumulated > LOCK_DELAY {
            DropResult::Stop
        } else {
            DropResult::Continue
        }
    }

    /// The state after a restart request: honoured only while grounded and
    /// while restarts remain.
    pub open spec fn after_reset(self) -> LockDelayView {
        if self.prev is Some && self.resets < ALLOWED_RESETS {
            LockDelayView { accumulated: 0, prev: None, resets: self.resets + 1 }
        } else {
            self
        }
    }
}

impl View for LockDelay {
    type V = LockDelayView;

    closed spec fn view(&self) -> LockDelayView {
        LockDelayView {
            accumulated: self.accumulated_time as int,
            prev: match self.prev_lock_time {
                Some(t) => Some(t.since_start as int),
                None => None,
            },
            resets: self.num_resets as int,
        }
    }
}

impl LockDelay {
    pub open spec fn wf(&self) -> bool {
        self@.wf()
    }

    pub fn new() -> (r: LockDelay)
        ensures
            r@ == LockDelayView::initial(),
            r.wf(),
    {
        LockDelay { accumulated_time: 0, prev_lock_time: None, num_resets: 0 }
    }

    /// Whether a sample at `now` is not earlier than the last one.
    pub fn accepts_time(&self, now: GameTime) -> (r: bool)
        ensures
            r == self@.accepts(now.since_start as int),
    {
        match self.prev_lock_time {
            Some(p) => p.since_start <= now.since_start,
            None => true,
        }
    }

    /// Records a grounded sample at `now` and says whether the piece must lock.
    pub fn consume_time(&mut self, now: GameTime) -> (r: DropResult)
        requires
            old(self).wf(),
            old(self)@.accepts(now.since_start as int),
        ensures
            final(self).wf(),
            final(self)@ == old(self)@.consumed(now.since_start as int),
            r == final(self)@.verdict(),
    {
        if let Some(prev) = self.prev_lock_time {
            self.accumulated_time = self.accumulated_time + (now - prev);
        }
        self.prev_lock_time = Some(now);
        if self.accumulated_time > LOCK_DELAY {
            DropResult::Stop
        } else {
            DropResult::Continue
        }
    }

    /// Restarts the grace period, if the piece is grounded and restarts remain.
    pub fn reset(&mut self)
        requires
            old(self).wf(),
        ensures
            final(self).wf(),
            final(self)@ == old(self)@.after_reset(),
    {
        if self.prev_lock_time.is_some() {
            if self.num_resets < ALLOWED_RESETS {
                self.accumulated_time = 0;
                self.prev_lock_time = None;
                self.num_resets = self.num_resets + 1;
            }
        }
    }
}

/// A fresh piece that is grounded at `t0` may stay; grounded again more than
/// `LOCK_DELAY` later without a restart, it locks.
pub proof fn lemma_lock_after_delay(t0: int, t1: int)
    requires
        t1 > t0 + LOCK_DELAY,
    ensures
        LockDelayView::initial().consumed(t0).verdict() == DropResult::Continue,
        LockDelayView::initial().consumed(t0).consumed(t1).verdict() == DropResult::Stop,
{
}

/// A restart between two grounded samples counts from zero again: after the
/// restart, samples at `t1` and then `t2` have counted `t2 - t1`, and the
/// piece locks only once that passes `LOCK_DELAY`.
pub proof fn lemma_reset_restarts_count(v: LockDelayView, t1: int, t2: int)
    requires
        v.wf(),
        v.prev is Some,
        v.resets < ALLOWED_RESETS,
        t1 <= t2,
    ensures
        v.after_reset().consumed(t1).accumulated == 0,
        v.after_reset().consumed(t1).verdict() == DropResult::Continue,
        v.after_reset().consumed(t1).consumed(t2).accumulated == t2 - t1,
        v.after_reset().consumed(t1).consumed(t2).verdict() == (if t2 - t1 > LOCK_DELAY {
            DropResult::Stop
        } else {
            DropResult::Continue
        }),
{
}

/// Restarts are capped: once `ALLOWED_RESETS` have been used a restart changes
/// nothing, so samples at `t1` and then `t2` count on from the state as it was
/// and a piece grounded from a fresh count locks once `t2 - t1` passes
/// `LOCK_DELAY`.
pub proof fn lemma_resets_capped(v: LockDelayView, t1: int, t2: int)
    requires
        v.wf(),
        v.resets == ALLOWED_RESETS,
        t1 <= t2,
    ensures
        v.after_reset() == v,
        v.consumed(t1).after_reset() == v.consumed(t1),
        v.prev is None ==> v.consumed(t1).after_reset().consumed(t2).verdict() == (if t2 - t1
            > LOCK_DELAY {
            DropResult::Stop
        } else {
            DropResult::Continue
        }),
{
}

/// Each honoured restart uses one of the `ALLOWED_RESETS`: from a fresh
/// state, `ALLOWED_RESETS` samples each followed by a restart leave no restart
/// for later.
pub proof fn lemma_resets_used_up(t: Seq<int>)
    requires
        t.len() == ALLOWED_RESETS,
    ensures
        ({
            let v1 = LockDelayView::initial().consumed(t[0]).after_reset();
            let v2 = v1.consumed(t[1]).after_reset();
            let v3 = v2.consumed(t[2]).after_reset();
            let v4 = v3.consumed(t[3]).after_reset();
            let v5 = v4.consumed(t[4]).after_reset();
            &&& v5.resets == ALLOWED_RESETS
            &&& v5 == LockDelayView { accumulated: 0, prev: None, resets: ALLOWED_RESETS as int }
        }),
{
}

/// The state after `k` restart requests in a row.
pub open spec fn reset_times(v: LockDelayView, k: nat) -> LockDelayView
    decreases k,
{
    if k == 0 {
        v
    } else {
        reset_times(v, (k - 1) as nat).after_reset()
    }
}

/// With the restarts used up, any number of restart requests leaves a
/// grounded count as it is: from a sample at `t1` with nothing counted, the
/// piece locks at a sample at `t2` exactly when `t2 - t1` passes `LOCK_DELAY`.
pub proof fn lemma_capped_resets_change_nothing(v: LockDelayView, k: nat, t1: int, t2: int)
    requires
        v.wf(),
        v.resets == ALLOWED_RESETS,
        v.prev == Some(t1),
        v.accumulated == 0,
        t1 <= t2,
    ensures
        reset_times(v, k) == v,
        reset_times(v, k).consumed(t2).verdict() == (if t2 - t1 > LOCK_DELAY {
            DropResult::Stop
        } else {
            DropResult::Continue
        }),
    decreases k,
{
    if k > 0 {
        lemma_capped_resets_change_nothing(v, (k - 1) as nat, t1, t2);
    }
}

} // verus!
