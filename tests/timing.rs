use blocks::controlled::{ControlledBlocks, DropResult};
use blocks::field::{CheckableField, Field};
use blocks::input::{InputEvent, KeyStateMachine, RepeatingKeyStateMachine, SingleKeyStateMachine};
use blocks::lockdelay::{LockDelay, ALLOWED_RESETS, LOCK_DELAY};
use blocks::position::{p, Pos, RotateDir, ShiftDir};
use blocks::shapes::Shape;
use blocks::tetromino::Tetromino;
use blocks::time::GameTime;

const EPS: u64 = 1;
const FIRST_DURATION: u64 = 100;
const CONTINUED_DURATION: u64 = 40;

struct OpenEverywhere;

impl CheckableField for OpenEverywhere {
    fn open_at(&self, _pos: Pos) -> bool {
        true
    }

    fn is_open(&self, pos: Pos) -> bool {
        self.open_at(pos)
    }
}

#[test]
fn simple_delay() {
    let start_time = GameTime::from_millis(0);
    let mut ld = LockDelay::new();
    assert_eq!(ld.consume_time(start_time), DropResult::Continue);
    assert_eq!(ld.consume_time(start_time + LOCK_DELAY + EPS), DropResult::Stop);
}

#[test]
fn reset() {
    let start_time = GameTime::from_millis(0);
    let mut ld = LockDelay::new();
    assert_eq!(ld.consume_time(start_time), DropResult::Continue);
    ld.reset();
    assert_eq!(ld.consume_time(start_time + LOCK_DELAY + EPS), DropResult::Continue);
    assert_eq!(ld.consume_time(start_time + (LOCK_DELAY + EPS) * 2), DropResult::Stop);
}

#[test]
fn consume_resets() {
    let start_time = GameTime::from_millis(0);
    let mut ld = LockDelay::new();

    for i in 0..ALLOWED_RESETS as u64 {
        assert_eq!(ld.consume_time(start_time + (LOCK_DELAY + EPS) * i), DropResult::Continue);
        ld.reset();
        ld.reset();
    }

    assert_eq!(
        ld.consume_time(start_time + (LOCK_DELAY + EPS) * ALLOWED_RESETS as u64),
        DropResult::Continue
    );
    ld.reset();
    assert_eq!(
        ld.consume_time(start_time + (LOCK_DELAY + EPS) * (ALLOWED_RESETS as u64 + 1)),
        DropResult::Stop
    );
}

#[test]
fn exactly_the_threshold_does_not_lock() {
    let mut ld = LockDelay::new();
    assert_eq!(ld.consume_time(GameTime::from_millis(1000)), DropResult::Continue);
    assert_eq!(ld.consume_time(GameTime::from_millis(1300)), DropResult::Continue);
    assert_eq!(ld.consume_time(GameTime::from_millis(1500)), DropResult::Continue);
    assert_eq!(ld.consume_time(GameTime::from_millis(1501)), DropResult::Stop);
}

#[test]
fn reset_while_airborne_is_ignored() {
    let mut ld = LockDelay::new();
    ld.reset();
    assert_eq!(ld.consume_time(GameTime::from_millis(0)), DropResult::Continue);
    assert_eq!(ld.consume_time(GameTime::from_millis(501)), DropResult::Stop);
}

#[test]
fn sixth_reset_is_a_no_op() {
    let mut ld = LockDelay::new();
    let mut t = 0;
    for _ in 0..5 {
        assert_eq!(ld.consume_time(GameTime::from_millis(t)), DropResult::Continue);
        ld.reset();
        t += 400;
    }
    assert_eq!(ld.consume_time(GameTime::from_millis(t)), DropResult::Continue);
    ld.reset();
    assert_eq!(ld.consume_time(GameTime::from_millis(t + 500)), DropResult::Continue);
    assert_eq!(ld.consume_time(GameTime::from_millis(t + 501)), DropResult::Stop);
}

#[test]
fn periodic_drop() {
    let mock_field = OpenEverywhere;
    let start_time = GameTime::from_millis(0);
    let mut b = ControlledBlocks::new(start_time, Tetromino::new(p(0, 0), Shape::I), 1000);

    b.periodic_drop(&mock_field, start_time + 10);

    b.periodic_drop(&mock_field, start_time + 1010);
}

#[test]
fn periodic_drop_catches_up_missed_ticks() {
    let field = Field::new();
    let mut b = ControlledBlocks::new(GameTime::from_millis(0), Tetromino::new(p(3, 18), Shape::I), 100);
    assert_eq!(b.periodic_drop(&field, GameTime::from_millis(99)), DropResult::Continue);
    assert_eq!(b.tetromino.root_pos, p(3, 18));
    assert_eq!(b.periodic_drop(&field, GameTime::from_millis(350)), DropResult::Continue);
    assert_eq!(b.tetromino.root_pos, p(3, 15));
}

#[test]
fn moves_and_hard_drop() {
    let field = Field::new();
    let mut b = ControlledBlocks::new(GameTime::from_millis(0), Tetromino::new(p(3, 18), Shape::T), 1000);
    b.shift(&field, ShiftDir::Left);
    assert_eq!(b.tetromino.root_pos, p(2, 18));
    b.rotate(&field, RotateDir::CCW);
    assert_eq!(b.tetromino.rotation, blocks::position::Rotations::Three);
    for _ in 0..5 {
        b.shift(&field, ShiftDir::Left);
    }
    assert_eq!(b.tetromino.root_pos, p(0, 18));
    b.hard_drop(&field);
    assert_eq!(b.minos().minos.iter().map(|m| m.y).min(), Some(0));
}

#[test]
fn soft_drop_reschedules_gravity() {
    let field = Field::new();
    let mut b = ControlledBlocks::new(GameTime::from_millis(0), Tetromino::new(p(3, 18), Shape::O), 1000);
    assert_eq!(b.manual_soft_drop(&field, GameTime::from_millis(900)), DropResult::Continue);
    assert_eq!(b.tetromino.root_pos, p(3, 17));
    assert_eq!(b.periodic_drop(&field, GameTime::from_millis(1000)), DropResult::Continue);
    assert_eq!(b.tetromino.root_pos, p(3, 17));
    assert_eq!(b.periodic_drop(&field, GameTime::from_millis(1900)), DropResult::Continue);
    assert_eq!(b.tetromino.root_pos, p(3, 16));
}

#[test]
fn spawn_fall_lock_and_respawn() {
    let mut field = Field::new();
    let period = 1000;
    let mut b = ControlledBlocks::new(GameTime::from_millis(0), Tetromino::new(p(3, 18), Shape::I), period);
    let mut now = 0;
    let mut verdict = DropResult::Continue;
    while verdict == DropResult::Continue {
        now += period;
        verdict = b.periodic_drop(&field, GameTime::from_millis(now));
        if b.tetromino.root_pos == p(3, -2) && now > 20 * period {
            break;
        }
    }
    assert_eq!(b.tetromino.root_pos, p(3, -2));
    let grounded_at = now;
    assert_eq!(b.periodic_drop(&field, GameTime::from_millis(grounded_at + 200)), DropResult::Continue);
    assert_eq!(b.periodic_drop(&field, GameTime::from_millis(grounded_at + 501)), DropResult::Stop);
    b.minos().apply_to_field(&mut field);
    for x in 3..7 {
        assert!(!field.is_open(p(x, 0)));
    }
    assert!(field.is_open(p(2, 0)));
    assert!(Tetromino::try_new(p(3, 18), Shape::T, &field).is_some());
}

#[test]
fn states() {
    let start_time = GameTime::from_millis(0);
    let mut ksm = RepeatingKeyStateMachine::new(FIRST_DURATION, CONTINUED_DURATION);
    assert_eq!(InputEvent::Unchanged, ksm.update(false, start_time));
    assert_eq!(InputEvent::Fire, ksm.update(true, start_time));
    assert_eq!(InputEvent::Unchanged, ksm.update(true, start_time));
    assert_eq!(InputEvent::Unchanged, ksm.update(false, start_time));
}

#[test]
fn repeat() {
    let mut time = GameTime::from_millis(0);
    let small_duration = 1;
    let mut ksm = RepeatingKeyStateMachine::new(FIRST_DURATION, CONTINUED_DURATION);

    assert_eq!(InputEvent::Fire, ksm.update(true, time));

    time = time + small_duration;
    assert_eq!(InputEvent::Unchanged, ksm.update(true, time));

    time = time + FIRST_DURATION;
    assert_eq!(InputEvent::Fire, ksm.update(true, time));

    time = time + small_duration;
    assert_eq!(InputEvent::Unchanged, ksm.update(true, time));

    time = time + CONTINUED_DURATION;
    assert_eq!(InputEvent::Fire, ksm.update(true, time));
}

#[test]
fn single_key_fires_once_per_press() {
    let t = GameTime::from_millis(0);
    let mut ksm = SingleKeyStateMachine::new();
    assert_eq!(InputEvent::Fire, ksm.update(true, t));
    assert_eq!(InputEvent::Unchanged, ksm.update(true, t + 1000));
    assert_eq!(InputEvent::Unchanged, ksm.update(false, t + 1001));
    assert_eq!(InputEvent::Fire, ksm.update(true, t + 1002));
}
