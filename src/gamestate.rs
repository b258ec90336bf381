//! The session: the field, the piece in play or the pause of a line clear,
//! the bag, the held piece, the cleared-line count and the outcome.
use vstd::prelude::*;
use crate::controlled::{lemma_gravity_keeps_fit, ControlledBlocks, DropResult, PieceView};
use crate::field::{
    cells_oracle, copy_rows, full_rows_below, strictly_falling, lemma_field_oracle, lemma_full_rows_bounds, on_grid,
    without_rows, Field, FieldBlock, OverlayView, PlayingFieldRenderBlocksInstructions,
    FIELD_CELLS, FIELD_HEIGHT,
};
use crate::keybindings::Trigger;
use crate::lockdelay::LockDelayView;
use crate::position::{p, Coord, Pos, Rotations};
use crate::random_bag::{BagView, RandomBag};
use crate::shapes::{with_minos, Shape};
use crate::tetromino::{lemma_kick_fits, lemma_landed_keeps_fit, Tetromino};
use crate::time::GameTime;

verus! {

/// Milliseconds that full rows stay on the field before they are removed.
pub const CLEAR_DELAY: u64 = 500;

/// Cleared rows per level.
pub const LINES_PER_LEVEL: i32 = 10;

/// The level past which the game is won.
pub const MAX_LEVEL: i32 = 15;

/// The latest time a session accepts, far from the end of the clock.
pub const TIME_LIMIT: u64 = 0x7fff_ffff_ffff_ffff;

/// Whether the game goes on, or how it ended.
#[derive(Clone, Copy, PartialEq, Eq, Structural, Debug)]
pub enum GameCondition {
    Playing,
    Won,
    Lost,
}

/// The session state.
pub struct GameState {
    field: Field,
    control: Control,
    random_bag: RandomBag,
    hold_piece: Option<Shape>,
    can_hold: bool,
    cleared_lines: i32,
}

/// What a renderer needs of the session at one moment.
pub struct RenderInfo<'a> {
    pub playing_field: PlayingFieldRenderBlocksInstructions<'a>,
    pub previews: Vec<Shape>,
    pub hold_piece: Option<Shape>,
    pub cleared_lines: i32,
    pub level: i32,
}

/// What the player controls at the moment.
enum Control {
    /// A falling piece.
    Blocks(ControlledBlocks),
    /// Rows waiting to be removed, and when; a new piece follows.
    WaitForClear(Vec<Coord>, GameTime),
    /// A piece of this kind comes out of the hold slot next.
    TakeHold(Shape),
}

/// The state of a `Control` as values.
pub ghost enum ControlView {
    Blocks(PieceView),
    WaitForClear(Seq<Coord>, int),
    TakeHold(Shape),
}

/// The state of a `GameState` as values.
pub ghost struct GameView {
    pub field: Seq<FieldBlock>,
    pub control: ControlView,
    pub bag: BagView,
    pub hold: Option<Shape>,
    pub can_hold: bool,
    pub cleared: int,
}

/// A state reached within a tick, the random bytes not yet used, and
/// whether a new piece was blocked.
pub ghost struct Step {
    pub state: GameView,
    pub bytes: Seq<u8>,
    pub lost: bool,
}

/// The random byte of the next draw: the first of `bytes`, zero if none is left.
pub open spec fn first_byte(bytes: Seq<u8>) -> u8 {
    if bytes.len() > 0 {
        bytes[0]
    } else {
        0
    }
}

/// The bytes left after one draw.
pub open spec fn rest_bytes(bytes: Seq<u8>) -> Seq<u8> {
    if bytes.len() > 0 {
        bytes.drop_first()
    } else {
        bytes
    }
}

/// The bytes of `bytes` from index `pos` on.
pub open spec fn from_pos(bytes: Seq<u8>, pos: int) -> Seq<u8> {
    bytes.subrange(pos, bytes.len() as int)
}

/// Where new pieces enter: the corner of the layout box.
pub open spec fn start_position() -> Pos {
    Pos { x: 3, y: 18 }
}

/// Milliseconds between two drops at `level`: `(0.8 - (level - 1) * 0.007)`
/// raised to the power `level - 1`, in seconds, truncated to whole milliseconds.
pub open spec fn drop_period_ms(level: int) -> int {
    if level <= 1 {
        1000
    } else if level == 2 {
        793
    } else if level == 3 {
        617
    } else if level == 4 {
        472
    } else if level == 5 {
        355
    } else if level == 6 {
        262
    } else if level == 7 {
        189
    } else if level == 8 {
        134
    } else if level == 9 {
        93
    } else if level == 10 {
        64
    } else if level == 11 {
        42
    } else if level == 12 {
        28
    } else if level == 13 {
        18
    } else if level == 14 {
        11
    } else if level == 15 {
        7
    } else if level == 16 {
        4
    } else if level == 17 {
        2
    } else if level == 18 {
        1
    } else {
        0
    }
}

/// The drop period never grows as the level rises.
pub proof fn lemma_drop_period_monotonic(a: int, b: int)
    requires
        a <= b,
    ensures
        drop_period_ms(b) <= drop_period_ms(a),
{
}

/// Hold acts at most once per piece: with a piece in play it leaves hold
/// disallowed, with hold disallowed it changes nothing, and locking a piece
/// allows it again.
pub proof fn lemma_hold_once_per_piece(v: GameView, now: int, bytes: Seq<u8>)
    ensures
        v.control is Blocks ==> !v.after_trigger(Trigger::HoldPiece, now, bytes).state.can_hold,
        !v.can_hold ==> v.after_trigger(Trigger::HoldPiece, now, bytes).state == v,
        v.control is Blocks ==> v.locked(now, bytes).state.can_hold,
{
}

/// The level reached with `cleared` rows cleared.
pub open spec fn level_of(cleared: int) -> int {
    cleared / LINES_PER_LEVEL as int + 1
}

impl GameView {
    pub open spec fn level(self) -> int {
        level_of(self.cleared)
    }

    /// The cells open to a piece.
    pub open spec fn free(self) -> spec_fn(Pos) -> bool {
        cells_oracle(self.field)
    }

    /// Consistency of the parts: a piece in play fits in the field, rows that
    /// wait to be removed are on the grid.
    pub open spec fn wf(self) -> bool {
        &&& self.field.len() == FIELD_CELLS
        &&& self.bag.wf()
        &&& 0 <= self.cleared <= i32::MAX
        &&& match self.control {
            ControlView::Blocks(pv) => {
                &&& pv.piece.wf()
                &&& pv.lock.wf()
                &&& pv.piece.fits_in(self.free())
                &&& 0 <= pv.period <= 1000
            },
            ControlView::WaitForClear(lines, _) => {
                &&& forall|i: int| 0 <= i < lines.len() ==> 0 <= #[trigger] lines[i] < FIELD_HEIGHT
                &&& strictly_falling(lines)
            },
            ControlView::TakeHold(_) => true,
        }
    }

    /// Whether a tick at `now` may be applied: not before the piece's last
    /// grounded sample, within the clock's range, and with room in the count
    /// for one more clear.
    pub open spec fn accepts(self, now: int) -> bool {
        &&& 0 <= now <= TIME_LIMIT
        &&& self.cleared + FIELD_HEIGHT <= i32::MAX
        &&& self.control matches ControlView::Blocks(pv) ==> pv.lock.accepts(now)
    }

    /// What holds between the steps of a tick at `now`: a piece in play has not
    /// been sampled after `now`, and a lock still has room in the count.
    pub open spec fn within_tick(self, now: int) -> bool {
        &&& 0 <= now <= TIME_LIMIT
        &&& self.control matches ControlView::Blocks(pv) ==> {
            &&& pv.lock.accepts(now)
            &&& self.cleared + FIELD_HEIGHT <= i32::MAX
        }
    }

    /// A new piece of `shape` entering at `now`, with the drop period of the
    /// current level; `None` where its place is blocked.
    pub open spec fn spawned(self, shape: Shape, now: int) -> Option<ControlView> {
        let t = Tetromino { root_pos: start_position(), shape: shape, rotation: Rotations::Zero };
        if t.fits_in(self.free()) {
            Some(
                ControlView::Blocks(
                    PieceView {
                        piece: t,
                        next_drop: now + drop_period_ms(self.level()),
                        period: drop_period_ms(self.level()),
                        lock: LockDelayView::initial(),
                    },
                ),
            )
        } else {
            None
        }
    }

    /// The piece in play replaced by `pv`.
    pub open spec fn with_piece(self, pv: PieceView) -> GameView {
        GameView { control: ControlView::Blocks(pv), ..self }
    }

    /// `self` with the next `bytes` still to be drawn from, and whether a
    /// new piece was blocked.
    pub open spec fn step(self, bytes: Seq<u8>, lost: bool) -> Step {
        Step { state: self, bytes: bytes, lost: lost }
    }

    /// The next piece dealt from the bag, with the first of `bytes` as the
    /// draw's random byte, enters at `now`; where its place is blocked nothing
    /// is in play and the game is lost.
    pub open spec fn spawn_next(self, now: int, bytes: Seq<u8>) -> Step {
        let (bag, s) = self.bag.taken(first_byte(bytes));
        let v = GameView { bag: bag, ..self };
        match v.spawned(s, now) {
            Some(c) => GameView { control: c, ..v }.step(rest_bytes(bytes), false),
            None => v.step(rest_bytes(bytes), true),
        }
    }

    /// The piece in play written into the field: hold is allowed again, full
    /// rows are counted and wait `CLEAR_DELAY` to be removed, or, where there
    /// are none, the next piece enters at once.
    pub open spec fn locked(self, now: int, bytes: Seq<u8>) -> Step {
        match self.control {
            ControlView::Blocks(pv) => {
                let f = with_minos(self.field, pv.piece.cells(), pv.piece.shape);
                let lines = full_rows_below(f, FIELD_HEIGHT as int);
                let w = GameView {
                    field: f,
                    control: ControlView::WaitForClear(
                        lines,
                        if lines.len() == 0 {
                            now
                        } else {
                            now + CLEAR_DELAY
                        },
                    ),
                    can_hold: true,
                    cleared: self.cleared + lines.len(),
                    ..self
                };
                if lines.len() == 0 {
                    w.spawn_next(now, bytes)
                } else {
                    w.step(bytes, false)
                }
            },
            _ => self.step(bytes, false),
        }
    }

    /// The state after a drop that gave `res`: `Stop` locks the piece.
    pub open spec fn after_drop(self, res: DropResult, now: int, bytes: Seq<u8>) -> Step {
        if res == DropResult::Stop {
            self.locked(now, bytes)
        } else {
            self.step(bytes, false)
        }
    }

    /// The state after one player command at `now`; commands only act on a
    /// piece in play.
    pub open spec fn after_trigger(self, trigger: Trigger, now: int, bytes: Seq<u8>) -> Step {
        match self.control {
            ControlView::Blocks(pv) => match trigger {
                Trigger::Shift(dir) => self.with_piece(
                    pv.moved_to(pv.piece.attempt(dir.dx(), 0, pv.piece.rotation, self.free())),
                ).step(bytes, false),
                Trigger::Rotate(dir) => self.with_piece(
                    pv.moved_to(pv.piece.rotated(dir, self.free())),
                ).step(bytes, false),
                Trigger::SoftDown => {
                    let (q, res) = pv.soft_dropped(self.free(), now);
                    self.with_piece(q).after_drop(res, now, bytes)
                },
                Trigger::HardDrop => self.with_piece(
                    PieceView { piece: pv.piece.landed(self.free()), ..pv },
                ).locked(now, bytes),
                Trigger::HoldPiece => if self.can_hold {
                    GameView {
                        control: match self.hold {
                            Some(s) => ControlView::TakeHold(s),
                            None => ControlView::WaitForClear(seq![], now),
                        },
                        hold: Some(pv.piece.shape),
                        can_hold: false,
                        ..self
                    }.step(bytes, false)
                } else {
                    self.step(bytes, false)
                },
            },
            _ => self.step(bytes, false),
        }
    }

    /// The state after the commands of `triggers`, in order, stopping where a
    /// new piece is blocked.
    pub open spec fn after_triggers(self, triggers: Seq<Trigger>, now: int, bytes: Seq<u8>) -> Step
        decreases triggers.len(),
    {
        if triggers.len() == 0 {
            self.step(bytes, false)
        } else {
            let before = self.after_triggers(triggers.drop_last(), now, bytes);
            if before.lost {
                before
            } else {
                before.state.after_trigger(triggers.last(), now, before.bytes)
            }
        }
    }

    /// The state after the gravity due by `now`.
    pub open spec fn after_gravity(self, now: int, bytes: Seq<u8>) -> Step {
        match self.control {
            ControlView::Blocks(pv) => {
                let (q, res) = pv.fallen(self.free(), now);
                self.with_piece(q).after_drop(res, now, bytes)
            },
            _ => self.step(bytes, false),
        }
    }

    /// The start of a tick at `now`: a piece from the hold slot enters; rows
    /// whose pause is over are removed and the next piece from the bag enters.
    pub open spec fn resumed(self, now: int, bytes: Seq<u8>) -> Step {
        match self.control {
            ControlView::TakeHold(s) => match self.spawned(s, now) {
                Some(c) => GameView { control: c, ..self }.step(bytes, false),
                None => self.step(bytes, true),
            },
            ControlView::WaitForClear(lines, end) => if end <= now {
                GameView { field: without_rows(self.field, lines), ..self }.spawn_next(now, bytes)
            } else {
                self.step(bytes, false)
            },
            ControlView::Blocks(_) => self.step(bytes, false),
        }
    }

    /// What is drawn over the field: the piece in play and its landing place,
    /// or the rows being cleared.
    pub open spec fn overlay(self) -> OverlayView {
        match self.control {
            ControlView::Blocks(pv) => OverlayView::Piece {
                piece: pv.piece.cells(),
                landing: pv.piece.landed(self.free()).cells(),
                shape: pv.piece.shape,
            },
            ControlView::WaitForClear(lines, _) => OverlayView::Clearing(lines),
            ControlView::TakeHold(_) => OverlayView::Clearing(seq![]),
        }
    }

    /// Won past the last level, else still playing.
    pub open spec fn condition(self) -> GameCondition {
        if self.level() > MAX_LEVEL {
            GameCondition::Won
        } else {
            GameCondition::Playing
        }
    }

    /// One tick at `now` with the commands of `triggers`, where the draws
    /// from the bag take their random bytes from `bytes` in order (zero once
    /// they run out): the start of the tick, the commands, then gravity; a
    /// blocked new piece ends the tick and the game. Gives the state and the
    /// outcome.
    pub open spec fn updated(self, triggers: Seq<Trigger>, now: int, bytes: Seq<u8>) -> (GameView, GameCondition) {
        let a = self.resumed(now, bytes);
        if a.lost {
            (a.state, GameCondition::Lost)
        } else {
            let b = a.state.after_triggers(triggers, now, a.bytes);
            if b.lost {
                (b.state, GameCondition::Lost)
            } else {
                let c = b.state.after_gravity(now, b.bytes);
                if c.lost {
                    (c.state, GameCondition::Lost)
                } else {
                    (c.state, c.state.condition())
                }
            }
        }
    }
}

impl Control {
    spec fn view(&self) -> ControlView {
        match self {
            Control::Blocks(b) => ControlView::Blocks(b.view_piece()),
            Control::WaitForClear(lines, end) => ControlView::WaitForClear(
                lines@,
                end.since_start as int,
            ),
            Control::TakeHold(s) => ControlView::TakeHold(*s),
        }
    }
}

impl View for GameState {
    type V = GameView;

    closed spec fn view(&self) -> GameView {
        GameView {
            field: self.field@,
            control: self.control.view(),
            bag: self.random_bag@,
            hold: self.hold_piece,
            can_hold: self.can_hold,
            cleared: self.cleared_lines as int,
        }
    }
}

/// Where new pieces enter.
fn start_pos() -> (r: Pos)
    ensures
        r == start_position(),
{
    p(3, Field::PLAYING_BOUNDARY_HEIGHT - 2)
}

/// Milliseconds between two drops at `level`.
fn level_drop_period(level: i32) -> (r: u64)
    ensures
        r == drop_period_ms(level as int),
{
    if level <= 1 {
        1000
    } else if level == 2 {
        793
    } else if level == 3 {
        617
    } else if level == 4 {
        472
    } else if level == 5 {
        355
    } else if level == 6 {
        262
    } else if level == 7 {
        189
    } else if level == 8 {
        134
    } else if level == 9 {
        93
    } else if level == 10 {
        64
    } else if level == 11 {
        42
    } else if level == 12 {
        28
    } else if level == 13 {
        18
    } else if level == 14 {
        11
    } else if level == 15 {
        7
    } else if level == 16 {
        4
    } else if level == 17 {
        2
    } else if level == 18 {
        1
    } else {
        0
    }
}

/// A tick without commands in which gravity locks the piece and no row is
/// full writes exactly the piece's minos into the field, leaves the count of
/// cleared rows as it was, and lets the next piece of the preview queue enter
/// in the same tick, unless its place is blocked.
pub proof fn lemma_lock_tick_spawns(v: GameView, now: int, bytes: Seq<u8>)
    requires
        v.wf(),
        v.control is Blocks,
        v.control->Blocks_0.fallen(v.free(), now).1 == DropResult::Stop,
        ({
            let q = v.control->Blocks_0.fallen(v.free(), now).0;
            full_rows_below(with_minos(v.field, q.piece.cells(), q.piece.shape), FIELD_HEIGHT as int).len() == 0
        }),
    ensures
        ({
            let q = v.control->Blocks_0.fallen(v.free(), now).0;
            let (w, c) = v.updated(seq![], now, bytes);
            &&& w.field == with_minos(v.field, q.piece.cells(), q.piece.shape)
            &&& w.cleared == v.cleared
            &&& w.can_hold
            &&& w.bag == v.bag.taken(first_byte(bytes)).0
            &&& c != GameCondition::Lost ==> w.control == ControlView::Blocks(
                PieceView {
                    piece: Tetromino {
                        root_pos: start_position(),
                        shape: v.bag.upcoming[0],
                        rotation: Rotations::Zero,
                    },
                    next_drop: now + drop_period_ms(v.level()),
                    period: drop_period_ms(v.level()),
                    lock: LockDelayView::initial(),
                },
            )
        }),
{
    let pv = v.control->Blocks_0;
    let q = pv.fallen(v.free(), now).0;
    assert(v.after_triggers(seq![], now, bytes) == v.step(bytes, false));
    let f = with_minos(v.field, q.piece.cells(), q.piece.shape);
    let w = GameView {
        field: f,
        control: ControlView::WaitForClear(full_rows_below(f, FIELD_HEIGHT as int), now),
        can_hold: true,
        ..v.with_piece(q)
    };
    assert(v.after_gravity(now, bytes) == w.spawn_next(now, bytes));
    assert(v.bag.filled(first_byte(bytes)).upcoming[0] == v.bag.upcoming[0]);
}

/// Once a new piece is blocked, the remaining commands change nothing.
proof fn lemma_lost_stays(v: GameView, triggers: Seq<Trigger>, now: int, bytes: Seq<u8>, i: int)
    requires
        0 <= i <= triggers.len(),
        v.after_triggers(triggers.take(i), now, bytes).lost,
    ensures
        v.after_triggers(triggers, now, bytes) == v.after_triggers(triggers.take(i), now, bytes),
    decreases triggers.len() - i,
{
    if i < triggers.len() {
        assert(triggers.take(i + 1).drop_last() == triggers.take(i));
        lemma_lost_stays(v, triggers, now, bytes, i + 1);
    } else {
        assert(triggers.take(i) == triggers);
    }
}

impl GameState {
    pub open spec fn wf(&self) -> bool {
        self@.wf()
    }

    /// The field reports open exactly the cells that the view's `free` holds.
    proof fn lemma_oracle(&self)
        requires
            self.field.wf(),
        ensures
            crate::field::oracle(&self.field) == self@.free(),
    {
        lemma_field_oracle(&self.field);
    }

    /// A new session at `now`: an empty field, a fresh bag, no held piece; the
    /// first piece enters at the next tick.
    pub fn new(now: GameTime) -> (r: GameState)
        ensures
            r.wf(),
            forall|i: int| 0 <= i < FIELD_CELLS ==> r@.field[i] == FieldBlock::Empty,
            r@.control == ControlView::WaitForClear(seq![], now.since_start as int),
            r@.hold is None,
            r@.can_hold,
            r@.cleared == 0,
            r@.bag.upcoming.len() == crate::random_bag::NUM_PREVIEWS,
            exists|bytes: Seq<u8>|
                bytes.len() == crate::random_bag::NUM_PREVIEWS && r@.bag == BagView::initial().filled_all(
                    bytes,
                ),
    {
        let r = GameState {
            field: Field::new(),
            control: Control::WaitForClear(Vec::new(), now),
            random_bag: RandomBag::new(),
            hold_piece: None,
            can_hold: true,
            cleared_lines: 0,
        };
        assert(r@.control == ControlView::WaitForClear(seq![], now.since_start as int));
        r
    }

    /// The level: one more than a tenth of the cleared rows.
    pub fn level(&self) -> (r: i32)
        requires
            self.wf(),
        ensures
            r == self@.level(),
    {
        self.cleared_lines / LINES_PER_LEVEL + 1
    }

    /// A snapshot for drawing: the field and what lies over it, the upcoming
    /// pieces, the held piece, the cleared rows and the level.
    pub fn render_info(&self) -> (r: RenderInfo<'_>)
        requires
            self.wf(),
        ensures
            r.playing_field.wf(),
            r.playing_field.cells() == self@.field,
            r.playing_field.overlay() == self@.overlay(),
            r.previews@ == self@.bag.upcoming,
            r.hold_piece == self@.hold,
            r.cleared_lines == self@.cleared,
            r.level == self@.level(),
    {
        proof {
            self.lemma_oracle();
        }
        let playing_field = match &self.control {
            Control::Blocks(b) => PlayingFieldRenderBlocksInstructions::new(
                &self.field,
                b.current_piece(),
            ),
            Control::WaitForClear(lines, _) => PlayingFieldRenderBlocksInstructions::new_clearing(
                &self.field,
                copy_rows(lines),
            ),
            Control::TakeHold(_) => PlayingFieldRenderBlocksInstructions::new_clearing(
                &self.field,
                Vec::new(),
            ),
        };
        RenderInfo {
            playing_field,
            previews: self.random_bag.previews(),
            hold_piece: self.hold_piece,
            cleared_lines: self.cleared_lines,
            level: self.level(),
        }
    }

    /// Whether a tick at `now` may be applied (see `GameView::accepts`).
    pub fn accepts_time(&self, now: GameTime) -> (r: bool)
        requires
            self.wf(),
        ensures
            r == self@.accepts(now.since_start as int),
    {
        let room = self.cleared_lines <= i32::MAX - Field::GAME_HEIGHT;
        let sampled = match &self.control {
            Control::Blocks(b) => b.accepts_time(now),
            _ => true,
        };
        now.since_start <= TIME_LIMIT && room && sampled
    }

    /// Applies one tick at `now` with the commands of `triggers`, drawing
    /// random bytes for the pieces that enter.
    pub fn update(&mut self, triggers: &Vec<Trigger>, now: GameTime) -> (r: GameCondition)
        requires
            old(self).wf(),
            old(self)@.accepts(now.since_start as int),
        ensures
            final(self).wf(),
            exists|bytes: Seq<u8>|
                (final(self)@, r) == old(self)@.updated(triggers@, now.since_start as int, bytes),
    {
        let draws: usize = if triggers.len() <= usize::MAX - 2 {
            triggers.len() + 2
        } else {
            usize::MAX
        };
        let bytes = RandomBag::draw_bytes(draws);
        self.update_with(triggers, now, &bytes)
    }

    /// Whether rows wait for removal and their pause is over at `now`.
    fn clear_due(&self, now: GameTime) -> (r: bool)
        ensures
            r == (self@.control matches ControlView::WaitForClear(_, end) && end <= now.since_start),
    {
        match &self.control {
            Control::WaitForClear(_, end_time) => end_time.since_start <= now.since_start,
            _ => false,
        }
    }

    /// Applies one tick at `now` with the commands of `triggers`, where the
    /// draws from the bag take their random bytes from `bytes` in order.
    pub fn update_with(&mut self, triggers: &Vec<Trigger>, now: GameTime, bytes: &Vec<u8>) -> (r:
        GameCondition)
        requires
            old(self).wf(),
            old(self)@.accepts(now.since_start as int),
        ensures
            final(self).wf(),
            (final(self)@, r) == old(self)@.updated(triggers@, now.since_start as int, bytes@),
    {
        let ghost t = now.since_start as int;
        let mut pos: usize = 0;
        assert(from_pos(bytes@, 0) =~= bytes@);
        if self.resume(now, bytes, &mut pos) {
            return GameCondition::Lost;
        }
        let ghost mid = self@;
        let ghost mid_bytes = from_pos(bytes@, pos as int);
        let mut i: usize = 0;
        while i < triggers.len()
            invariant
                self.wf(),
                self@.within_tick(t),
                t == now.since_start,
                i <= triggers.len(),
                pos <= bytes.len(),
                old(self)@.resumed(t, bytes@) == mid.step(mid_bytes, false),
                mid.after_triggers(triggers@.take(i as int), t, mid_bytes) == self@.step(
                    from_pos(bytes@, pos as int),
                    false,
                ),
            decreases triggers.len() - i,
        {
            assert(triggers@.take(i + 1).drop_last() == triggers@.take(i as int));
            let lost = self.handle_input(triggers[i], now, bytes, &mut pos);
            i = i + 1;
            if lost {
                proof {
                    assert(mid.after_triggers(triggers@.take(i as int), t, mid_bytes) == self@.step(
                        from_pos(bytes@, pos as int),
                        true,
                    ));
                    lemma_lost_stays(mid, triggers@, t, mid_bytes, i as int);
                }
                assert(triggers@.take(triggers.len() as int) == triggers@);
                return GameCondition::Lost;
            }
        }
        assert(triggers@.take(triggers.len() as int) == triggers@);
        if self.gravity_step(now, bytes, &mut pos) {
            return GameCondition::Lost;
        }
        if self.level() > MAX_LEVEL {
            GameCondition::Won
        } else {
            GameCondition::Playing
        }
    }

    /// The random byte of the next draw from `bytes`, zero once they run out.
    fn next_byte(bytes: &Vec<u8>, pos: &mut usize) -> (r: u8)
        requires
            *old(pos) <= bytes.len(),
        ensures
            *final(pos) <= bytes.len(),
            r == first_byte(from_pos(bytes@, *old(pos) as int)),
            from_pos(bytes@, *final(pos) as int) == rest_bytes(from_pos(bytes@, *old(pos) as int)),
    {
        if *pos < bytes.len() {
            let b = bytes[*pos];
            *pos = *pos + 1;
            assert(from_pos(bytes@, *pos as int) =~= from_pos(bytes@, *pos - 1).drop_first());
            b
        } else {
            0
        }
    }

    /// Deals the next piece from the bag and lets it enter at `now`. Says
    /// whether its place was blocked.
    fn spawn_next(&mut self, now: GameTime, bytes: &Vec<u8>, pos: &mut usize) -> (lost: bool)
        requires
            old(self).wf(),
            !(old(self)@.control is Blocks),
            0 <= now.since_start <= TIME_LIMIT,
            old(self)@.cleared + FIELD_HEIGHT <= i32::MAX,
            *old(pos) <= bytes.len(),
        ensures
            final(self).wf(),
            final(self)@.within_tick(now.since_start as int),
            *final(pos) <= bytes.len(),
            old(self)@.spawn_next(now.since_start as int, from_pos(bytes@, *old(pos) as int))
                == final(self)@.step(from_pos(bytes@, *final(pos) as int), lost),
    {
        let byte = Self::next_byte(bytes, pos);
        let shape = self.random_bag.take_next_with(byte);
        match self.make_controlled_blocks(now, shape) {
            Some(cb) => {
                self.control = Control::Blocks(cb);
                false
            },
            None => true,
        }
    }

    /// The start of a tick at `now`: a piece from the hold slot enters, or rows
    /// whose pause is over are removed and the next piece enters. Says whether
    /// the entering piece was blocked.
    fn resume(&mut self, now: GameTime, bytes: &Vec<u8>, pos: &mut usize) -> (lost: bool)
        requires
            old(self).wf(),
            old(self)@.accepts(now.since_start as int),
            *old(pos) <= bytes.len(),
        ensures
            final(self).wf(),
            final(self)@.within_tick(now.since_start as int),
            *final(pos) <= bytes.len(),
            old(self)@.resumed(now.since_start as int, from_pos(bytes@, *old(pos) as int))
                == final(self)@.step(from_pos(bytes@, *final(pos) as int), lost),
    {
        if let Control::TakeHold(shape) = &self.control {
            let s = *shape;
            match self.make_controlled_blocks(now, s) {
                Some(cb) => {
                    self.control = Control::Blocks(cb);
                },
                None => {
                    return true;
                },
            }
        } else if self.clear_due(now) {
            if let Control::WaitForClear(lines, _) = &self.control {
                proof {
                    let ghost l = old(self)@.control->WaitForClear_0;
                    assert(old(self)@.wf());
                    assert(forall|i: int| 0 <= i < l.len() ==> 0 <= #[trigger] l[i] < FIELD_HEIGHT);
                    assert(strictly_falling(l));
                    assert(l == lines@);
                }
                self.field.remove_lines(lines);
            }
            return self.spawn_next(now, bytes, pos);
        }
        false
    }

    /// Runs the gravity due by `now` on the piece in play, locking it where it
    /// must lock. Says whether a new piece was blocked.
    fn gravity_step(&mut self, now: GameTime, bytes: &Vec<u8>, pos: &mut usize) -> (lost: bool)
        requires
            old(self).wf(),
            old(self)@.within_tick(now.since_start as int),
            *old(pos) <= bytes.len(),
        ensures
            final(self).wf(),
            *final(pos) <= bytes.len(),
            old(self)@.after_gravity(now.since_start as int, from_pos(bytes@, *old(pos) as int))
                == final(self)@.step(from_pos(bytes@, *final(pos) as int), lost),
    {
        proof {
            self.lemma_oracle();
        }
        let drop = match &mut self.control {
            Control::Blocks(b) => {
                proof {
                    lemma_gravity_keeps_fit(
                        b.piece(),
                        b.next_drop(),
                        b.period(),
                        b.lock(),
                        now.since_start as int,
                        old(self)@.free(),
                    );
                }
                Some(b.periodic_drop(&self.field, now))
            },
            _ => None,
        };
        match drop {
            Some(d) => self.handle_soft_drop(d, now, bytes, pos),
            None => false,
        }
    }

    /// Applies one player command at `now`. Says whether a new piece was blocked.
    fn handle_input(&mut self, trigger: Trigger, now: GameTime, bytes: &Vec<u8>, pos: &mut usize) -> (lost: bool)
        requires
            old(self).wf(),
            old(self)@.within_tick(now.since_start as int),
            *old(pos) <= bytes.len(),
        ensures
            final(self).wf(),
            final(self)@.within_tick(now.since_start as int),
            *final(pos) <= bytes.len(),
            old(self)@.after_trigger(trigger, now.since_start as int, from_pos(bytes@, *old(pos) as int))
                == final(self)@.step(from_pos(bytes@, *final(pos) as int), lost),
    {
        proof {
            self.lemma_oracle();
        }
        match &mut self.control {
            Control::Blocks(blocks) => {
                match trigger {
                    Trigger::Shift(dir) => {
                        blocks.shift(&self.field, dir);
                        false
                    },
                    Trigger::SoftDown => {
                        let drop_result = blocks.manual_soft_drop(&self.field, now);
                        self.handle_soft_drop(drop_result, now, bytes, pos)
                    },
                    Trigger::Rotate(dir) => {
                        proof {
                            lemma_kick_fits(blocks.piece(), dir, old(self)@.free(), 0);
                        }
                        blocks.rotate(&self.field, dir);
                        false
                    },
                    Trigger::HardDrop => {
                        proof {
                            lemma_landed_keeps_fit(blocks.piece(), old(self)@.free());
                        }
                        blocks.hard_drop(&self.field);
                        self.replace_controlled_piece(now, bytes, pos)
                    },
                    Trigger::HoldPiece => {
                        if self.can_hold {
                            let new_hold_shape = blocks.minos().shape();
                            self.control =
                            match self.hold_piece {
                                Some(s) => Control::TakeHold(s),
                                None => Control::WaitForClear(Vec::new(), now),
                            };
                            self.hold_piece = Some(new_hold_shape);
                            self.can_hold = false;
                            assert(self.control.view() =~= old(self)@.after_trigger(
                                trigger,
                                now.since_start as int,
                                from_pos(bytes@, *old(pos) as int),
                            ).state.control);
                        }
                        false
                    },
                }
            },
            _ => false,
        }
    }

    /// Locks the piece where the drop said `Stop`. Says whether a new piece
    /// was blocked.
    fn handle_soft_drop(&mut self, drop_result: DropResult, now: GameTime, bytes: &Vec<u8>, pos: &mut usize) -> (lost: bool)
        requires
            old(self).wf(),
            old(self)@.within_tick(now.since_start as int),
            *old(pos) <= bytes.len(),
        ensures
            final(self).wf(),
            final(self)@.within_tick(now.since_start as int),
            *final(pos) <= bytes.len(),
            old(self)@.after_drop(drop_result, now.since_start as int, from_pos(bytes@, *old(pos) as int))
                == final(self)@.step(from_pos(bytes@, *final(pos) as int), lost),
    {
        if let DropResult::Stop = drop_result {
            self.replace_controlled_piece(now, bytes, pos)
        } else {
            false
        }
    }

    /// Writes the piece in play into the field and allows hold again; the
    /// full rows, if any, wait to be removed, else the next piece enters.
    /// Says whether a new piece was blocked.
    fn replace_controlled_piece(&mut self, now: GameTime, bytes: &Vec<u8>, pos: &mut usize) -> (lost: bool)
        requires
            old(self).wf(),
            old(self)@.within_tick(now.since_start as int),
            *old(pos) <= bytes.len(),
        ensures
            final(self).wf(),
            final(self)@.within_tick(now.since_start as int),
            *final(pos) <= bytes.len(),
            old(self)@.locked(now.since_start as int, from_pos(bytes@, *old(pos) as int))
                == final(self)@.step(from_pos(bytes@, *final(pos) as int), lost),
    {
        let minos = match &self.control {
            Control::Blocks(b) => b.minos(),
            _ => {
                return false;
            },
        };
        proof {
            assert forall|k: int| 0 <= k < 4 implies on_grid(
                #[trigger] minos.minos@[k].x as int,
                minos.minos@[k].y as int,
            ) by {
                assert(old(self)@.free()(minos.minos@[k]));
            }
        }
        minos.apply_to_field(&mut self.field);
        self.can_hold = true;
        let lines = self.field.find_lines();
        proof {
            lemma_full_rows_bounds(self.field@, FIELD_HEIGHT as int);
        }
        if lines.len() == 0 {
            self.control = Control::WaitForClear(lines, now);
            self.spawn_next(now, bytes, pos)
        } else {
            self.cleared_lines = self.cleared_lines + lines.len() as i32;
            self.control = Control::WaitForClear(lines, now + CLEAR_DELAY);
            false
        }
    }

    /// A piece of `shape` entering at `now`, if its place is open.
    fn make_controlled_blocks(&self, now: GameTime, shape: Shape) -> (r: Option<ControlledBlocks>)
        requires
            self.wf(),
            now.since_start <= TIME_LIMIT,
        ensures
            match r {
                Some(cb) => {
                    &&& self@.spawned(shape, now.since_start as int) == Some(
                        ControlView::Blocks(cb.view_piece()),
                    )
                    &&& cb.wf()
                },
                None => self@.spawned(shape, now.since_start as int) is None,
            },
    {
        proof {
            self.lemma_oracle();
        }
        let new_tetromino = Tetromino::try_new(start_pos(), shape, &self.field)?;
        Some(ControlledBlocks::new(now, new_tetromino, level_drop_period(self.level())))
    }
}

} // verus!
