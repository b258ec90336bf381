//! The piece under the player's control: gravity schedule, manual moves and
//! lock delay.
use vstd::prelude::*;
use crate::field::{cells_oracle, oracle, CheckableField, FieldBlock, FIELD_CELLS};
use crate::lockdelay::LOCK_DELAY;
use crate::tetromino::lemma_cells_down;
use crate::lockdelay::{LockDelay, LockDelayView};
use crate::position::{Coord, Pos, RotateDir, ShiftDir};
use crate::shapes::MinoSet;
use crate::tetromino::Tetromino;
use crate::time::GameTime;

verus! {

/// Whether the piece stays under control or must be locked into the field.
#[derive(PartialEq, Eq, Structural, Debug, Clone, Copy)]
pub enum DropResult {
    Continue,
    Stop,
}

/// The state of a `ControlledBlocks` as values.
pub ghost struct PieceView {
    pub piece: Tetromino,
    /// Time of the next scheduled drop.
    pub next_drop: int,
    /// Milliseconds between two drops.
    pub period: int,
    pub lock: LockDelayView,
}

impl PieceView {
    /// The state after a manual move that gave `moved`: a move that happened
    /// replaces the piece and restarts the lock delay.
    pub open spec fn moved_to(self, moved: Option<Tetromino>) -> PieceView {
        match moved {
            Some(t) => PieceView { piece: t, lock: self.lock.after_reset(), ..self },
            None => self,
        }
    }

    /// The state and verdict after a soft drop at `now`.
    pub open spec fn soft_dropped(self, free: spec_fn(Pos) -> bool, now: int) -> (PieceView, DropResult) {
        match self.piece.attempt(0, -1, self.piece.rotation, free) {
            None => (PieceView { lock: self.lock.consumed(now), ..self }, self.lock.consumed(now).verdict()),
            Some(d) => (
                PieceView { piece: d, next_drop: now + self.period, lock: self.lock.after_reset(), ..self },
                DropResult::Continue,
            ),
        }
    }

    /// The state and verdict after the gravity due by `now`.
    pub open spec fn fallen(self, free: spec_fn(Pos) -> bool, now: int) -> (PieceView, DropResult) {
        let g = gravity(self.piece, self.next_drop, self.period, self.lock, now, free);
        (PieceView { piece: g.0, next_drop: g.1, lock: g.2, ..self }, g.3)
    }
}

/// The piece under control and its timers.
pub struct ControlledBlocks {
    pub tetromino: Tetromino,
    next_drop_time: GameTime,
    drop_period: u64,
    lock_delay: LockDelay,
}

/// Gravity from the drop scheduled at `next` up to `now`: while a drop is due
/// the piece moves down one cell, the next drop comes one period later and the
/// lock delay is restarted; once the piece cannot move down, the lock delay
/// takes a sample at `now` and decides. Gives the piece, the next drop time,
/// the lock delay and the verdict.
pub open spec fn gravity(
    t: Tetromino,
    next: int,
    period: int,
    lock: LockDelayView,
    now: int,
    free: spec_fn(Pos) -> bool,
) -> (Tetromino, int, LockDelayView, DropResult)
    decreases t.root_pos.y - Coord::MIN,
{
    if next > now {
        (t, next, lock, DropResult::Continue)
    } else {
        match t.attempt(0, -1, t.rotation, free) {
            None => (t, next, lock.consumed(now), lock.consumed(now).verdict()),
            Some(d) => gravity(d, next + period, period, lock.after_reset(), now, free),
        }
    }
}

/// Gravity keeps a well-formed piece that fits fitting: every move it makes is
/// one that fits.
pub proof fn lemma_gravity_keeps_fit(
    t: Tetromino,
    next: int,
    period: int,
    lock: LockDelayView,
    now: int,
    free: spec_fn(Pos) -> bool,
)
    requires
        t.wf(),
        t.fits_in(free),
    ensures
        gravity(t, next, period, lock, now, free).0.wf(),
        gravity(t, next, period, lock, now, free).0.fits_in(free),
        lock.accepts(now) ==> gravity(t, next, period, lock, now, free).2.accepts(now),
    decreases t.root_pos.y - Coord::MIN,
{
    if next <= now {
        if let Some(d) = t.attempt(0, -1, t.rotation, free) {
            lemma_gravity_keeps_fit(d, next + period, period, lock.after_reset(), now, free);
        }
    }
}

/// On an empty field a fresh piece whose lowest minos are `h` rows up falls
/// one row per period: a gravity step at `now`, no earlier than the drop that
/// would take it below the bottom, finds it landed with nothing yet counted
/// against the lock delay.
pub proof fn lemma_falls_to_bottom(
    t: Tetromino,
    next: int,
    period: int,
    lock: LockDelayView,
    now: int,
    cells: Seq<FieldBlock>,
    h: nat,
)
    requires
        cells.len() == FIELD_CELLS,
        forall|i: int| 0 <= i < FIELD_CELLS ==> cells[i] == FieldBlock::Empty,
        t.wf(),
        t.fits_in(cells_oracle(cells)),
        forall|k: int| 0 <= k < 4 ==> #[trigger] t.cells()[k].y >= h,
        exists|k: int| 0 <= k < 4 && #[trigger] t.cells()[k].y == h,
        period >= 0,
        lock.prev is None,
        lock.accumulated == 0,
        now >= next + h * period,
    ensures
        gravity(t, next, period, lock, now, cells_oracle(cells)) == (
            t.landed(cells_oracle(cells)),
            next + h * period,
            lock.consumed(now),
            DropResult::Continue,
        ),
    decreases h,
{
    let free = cells_oracle(cells);
    assert forall|k: int| 0 <= k < 4 implies crate::field::on_grid(
        #[trigger] t.cells()[k].x as int,
        t.cells()[k].y as int,
    ) by {
        assert(free(t.cells()[k]));
    }
    let c0 = crate::shapes::layout(t.shape, t.rotation)[0];
    assert(0 <= c0.x <= 3 && 0 <= c0.y <= 3);
    assert(t.cells()[0].y == t.root_pos.y + c0.y);
    assert(h * period >= 0) by (nonlinear_arith)
        requires
            period >= 0,
    ;
    if h == 0 {
        let k0 = choose|k: int| 0 <= k < 4 && #[trigger] t.cells()[k].y == h;
        if t.can_move(0, -1) {
            lemma_cells_down(t);
            assert(!free(t.moved(0, -1, t.rotation).cells()[k0]));
        }
        assert(t.attempt(0, -1, t.rotation, free) is None);
        assert(t.landed(free) == t);
    } else {
        assert(t.can_move(0, -1));
        lemma_cells_down(t);
        let d = t.moved(0, -1, t.rotation);
        assert forall|k: int| 0 <= k < 4 implies free(#[trigger] d.cells()[k]) by {
            assert(free(t.cells()[k]));
        }
        assert(t.attempt(0, -1, t.rotation, free) == Some(d));
        assert(forall|k: int| 0 <= k < 4 ==> #[trigger] d.cells()[k].y >= h - 1);
        let k0 = choose|k: int| 0 <= k < 4 && #[trigger] t.cells()[k].y == h;
        assert(d.cells()[k0].y == h - 1);
        assert(lock.after_reset() == lock);
        assert(next + h * period == (next + period) + (h - 1) * period) by (nonlinear_arith);
        lemma_falls_to_bottom(d, next + period, period, lock, now, cells, (h - 1) as nat);
    }
}

/// Once landed with a grounded sample at `now`, the piece locks at a later
/// gravity step exactly when more than `LOCK_DELAY` has passed, and stays
/// where it is.
pub proof fn lemma_landed_locks_after_delay(
    t: Tetromino,
    next: int,
    period: int,
    lock: LockDelayView,
    now: int,
    later: int,
    free: spec_fn(Pos) -> bool,
)
    requires
        t.attempt(0, -1, t.rotation, free) is None,
        lock.prev == Some(now),
        lock.accumulated == 0,
        next <= now <= later,
    ensures
        gravity(t, next, period, lock, later, free).0 == t,
        gravity(t, next, period, lock, later, free).3 == (if later - now > LOCK_DELAY {
            DropResult::Stop
        } else {
            DropResult::Continue
        }),
{
}

/// The run of an I piece entering at the spawn place of an empty field, with
/// its first drop at `first`: a gravity step at `now`, once twenty drops are
/// due, finds it resting on the bottom row and still under control; a later
/// step, more than `LOCK_DELAY` after `now`, locks it where it rests.
pub proof fn lemma_spawned_i_falls_and_locks(
    cells: Seq<FieldBlock>,
    first: int,
    period: int,
    now: int,
    later: int,
)
    requires
        cells.len() == FIELD_CELLS,
        forall|i: int| 0 <= i < FIELD_CELLS ==> cells[i] == FieldBlock::Empty,
        period >= 0,
        now >= first + 20 * period,
        later - now > LOCK_DELAY,
    ensures
        ({
            let t = Tetromino {
                root_pos: Pos { x: 3, y: 18 },
                shape: crate::shapes::Shape::I,
                rotation: crate::position::Rotations::Zero,
            };
            let free = cells_oracle(cells);
            let g = gravity(t, first, period, LockDelayView::initial(), now, free);
            let h = gravity(g.0, g.1, period, g.2, later, free);
            &&& g.3 == DropResult::Continue
            &&& g.0 == t.landed(free)
            &&& h.3 == DropResult::Stop
            &&& h.0 == t.landed(free)
            &&& forall|k: int| 0 <= k < 4 ==> #[trigger] t.landed(free).cells()[k].y >= 0
            &&& exists|k: int| 0 <= k < 4 && #[trigger] t.landed(free).cells()[k].y == 0
        }),
{
    let t = Tetromino {
        root_pos: Pos { x: 3, y: 18 },
        shape: crate::shapes::Shape::I,
        rotation: crate::position::Rotations::Zero,
    };
    let free = cells_oracle(cells);
    assert(t.cells()[0].y == 20);
    assert(forall|k: int| 0 <= k < 4 ==> #[trigger] t.cells()[k].y == 20);
    assert(t.fits_in(free));
    lemma_falls_to_bottom(t, first, period, LockDelayView::initial(), now, cells, 20);
    crate::tetromino::lemma_landed_is_final(t, free);
    crate::tetromino::lemma_lands_on_bottom(t, cells);
    lemma_landed_locks_after_delay(
        t.landed(free),
        first + 20 * period,
        period,
        LockDelayView::initial().consumed(now),
        now,
        later,
        free,
    );
}

impl ControlledBlocks {
    /// The piece under control.
    pub closed spec fn piece(&self) -> Tetromino {
        self.tetromino
    }

    /// Time of the next scheduled drop, in milliseconds.
    pub closed spec fn next_drop(&self) -> int {
        self.next_drop_time.since_start as int
    }

    /// Milliseconds between two drops.
    pub closed spec fn period(&self) -> int {
        self.drop_period as int
    }

    /// The state of the lock delay.
    pub closed spec fn lock(&self) -> LockDelayView {
        self.lock_delay@
    }

    /// The whole state as values.
    pub open spec fn view_piece(&self) -> PieceView {
        PieceView {
            piece: self.piece(),
            next_drop: self.next_drop(),
            period: self.period(),
            lock: self.lock(),
        }
    }

    pub open spec fn wf(&self) -> bool {
        self.piece().wf() && self.lock().wf()
    }

    /// Whether `now` may be handed to the piece: not before the last grounded
    /// sample, and far enough from the end of the clock for one more period.
    pub open spec fn accepts(&self, now: GameTime) -> bool {
        self.lock().accepts(now.since_start as int) && now.since_start + self.period() <= u64::MAX
    }

    /// A piece under control from `start_time`, first dropping one period later.
    pub fn new(start_time: GameTime, tetromino: Tetromino, drop_period: u64) -> (r: ControlledBlocks)
        requires
            start_time.since_start + drop_period <= u64::MAX,
        ensures
            r.piece() == tetromino,
            r.next_drop() == start_time.since_start + drop_period,
            r.period() == drop_period,
            r.lock() == LockDelayView::initial(),
    {
        ControlledBlocks {
            tetromino: tetromino,
            next_drop_time: start_time + drop_period,
            drop_period: drop_period,
            lock_delay: LockDelay::new(),
        }
    }

    /// Whether `now` may be handed to the piece (see `accepts`).
    pub fn accepts_time(&self, now: GameTime) -> (r: bool)
        requires
            self.wf(),
        ensures
            r == self.accepts(now),
    {
        self.lock_delay.accepts_time(now) && now.since_start <= u64::MAX - self.drop_period
    }

    /// The piece under control.
    pub fn current_piece(&self) -> (r: Tetromino)
        ensures
            r == self.piece(),
    {
        self.tetromino
    }

    /// The minos of the piece.
    pub fn minos(&self) -> (r: MinoSet)
        requires
            self.wf(),
        ensures
            r.minos@ == self.piece().cells(),
            r.shape == self.piece().shape,
    {
        self.tetromino.to_minos()
    }

    /// Moves the piece one cell in `dir` if it fits.
    pub fn shift<F: CheckableField>(&mut self, field: &F, dir: ShiftDir)
        requires
            old(self).wf(),
        ensures
            final(self).wf(),
            final(self).view_piece() == old(self).view_piece().moved_to(
                old(self).piece().attempt(dir.dx(), 0, old(self).piece().rotation, oracle(field)),
            ),
    {
        let moved = self.tetromino.try_shift(dir, field);
        self.manual_movement(moved);
    }

    /// Turns the piece once in `dir`, with wall kicks, if some candidate fits.
    pub fn rotate<F: CheckableField>(&mut self, field: &F, dir: RotateDir)
        requires
            old(self).wf(),
        ensures
            final(self).wf(),
            final(self).view_piece() == old(self).view_piece().moved_to(
                old(self).piece().rotated(dir, oracle(field)),
            ),
    {
        let moved = self.tetromino.try_rotate(dir, field);
        self.manual_movement(moved);
    }

    /// Moves the piece down as far as it goes; the caller locks it next.
    pub fn hard_drop<F: CheckableField>(&mut self, field: &F)
        requires
            old(self).wf(),
        ensures
            final(self).wf(),
            final(self).view_piece() == (PieceView {
                piece: old(self).piece().landed(oracle(field)),
                ..old(self).view_piece()
            }),
    {
        self.tetromino = self.tetromino.hard_drop(field);
    }

    /// Applies every drop due by `now`; once the piece is grounded the lock
    /// delay decides whether it must lock.
    pub fn periodic_drop<F: CheckableField>(&mut self, field: &F, now: GameTime) -> (r: DropResult)
        requires
            old(self).wf(),
            old(self).accepts(now),
        ensures
            final(self).wf(),
            (final(self).view_piece(), r) == old(self).view_piece().fallen(
                oracle(field),
                now.since_start as int,
            ),
    {
        while self.next_drop_time.since_start <= now.since_start
            invariant
                self.wf(),
                self.accepts(now),
                self.period() == old(self).period(),
                gravity(
                    self.piece(),
                    self.next_drop(),
                    self.period(),
                    self.lock(),
                    now.since_start as int,
                    oracle(field),
                ) == gravity(
                    old(self).piece(),
                    old(self).next_drop(),
                    old(self).period(),
                    old(self).lock(),
                    now.since_start as int,
                    oracle(field),
                ),
            decreases self.piece().root_pos.y - Coord::MIN,
        {
            match self.tetromino.try_down(field) {
                None => {
                    return self.lock_delay.consume_time(now);
                },
                Some(dropped) => {
                    self.lock_delay.reset();
                    self.next_drop_time = self.next_drop_time + self.drop_period;
                    self.tetromino = dropped;
                },
            }
        }
        DropResult::Continue
    }

    /// Moves the piece down one cell at the player's request. A piece that
    /// moves has its next drop rescheduled one period after `now`; a grounded
    /// one has the lock delay decide.
    pub fn manual_soft_drop<F: CheckableField>(&mut self, field: &F, now: GameTime) -> (r: DropResult)
        requires
            old(self).wf(),
            old(self).accepts(now),
        ensures
            final(self).wf(),
            (final(self).view_piece(), r) == old(self).view_piece().soft_dropped(
                oracle(field),
                now.since_start as int,
            ),
    {
        match self.tetromino.try_down(field) {
            None => self.lock_delay.consume_time(now),
            Some(dropped) => {
                self.lock_delay.reset();
                self.next_drop_time = now + self.drop_period;
                self.tetromino = dropped;
                DropResult::Continue
            },
        }
    }

    /// Takes the outcome of a manual move: a move that happened replaces the
    /// piece and restarts the lock delay.
    fn manual_movement(&mut self, new_tetromino: Option<Tetromino>)
        requires
            old(self).wf(),
            new_tetromino matches Some(t) ==> t.wf(),
        ensures
            final(self).wf(),
            final(self).view_piece() == old(self).view_piece().moved_to(new_tetromino),
    {
        if let Some(tet) = new_tetromino {
            self.tetromino = tet;
            self.lock_delay.reset();
        }
    }
}

} // verus!
