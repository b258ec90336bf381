use blocks::field::{CheckableField, Field};
use blocks::position::{p, Pos, RotateDir, Rotations, ShiftDir};
use blocks::shapes::{Shape, ShapeDef};
use blocks::tetromino::Tetromino;

/// Every cell open but the listed ones.
struct BlockedCells {
    blocked: Vec<Pos>,
}

impl CheckableField for BlockedCells {
    fn open_at(&self, pos: Pos) -> bool {
        !self.blocked.contains(&pos)
    }

    fn is_open(&self, pos: Pos) -> bool {
        self.open_at(pos)
    }
}

#[test]
fn to_minos() {
    let minos = Shape::I.to_minos(Rotations::One, p(1, 2)).minos;
    let mut got = minos.to_vec();
    got.sort_by_key(|q| (q.x, q.y));
    assert_eq!(got, vec![p(3, 2), p(3, 3), p(3, 4), p(3, 5)]);
}

#[test]
fn hard_drop() {
    let mock_field = BlockedCells { blocked: vec![p(0, -5)] };
    let t = Tetromino::new(p(0, 0), Shape::I);
    let result = t.hard_drop(&mock_field);
    assert_eq!(p(0, -6), result.root_pos);
}

#[test]
fn shift() {
    let mock_field = BlockedCells { blocked: vec![p(-1, 2)] };
    let t = Tetromino::new(p(0, 0), Shape::I);
    assert!(t.try_shift(ShiftDir::Left, &mock_field).is_none());

    let right_result = t.try_shift(ShiftDir::Right, &mock_field);
    assert_eq!(right_result.expect("").root_pos, p(1, 0));
}

#[test]
fn rotate_i_in_place_on_empty_field() {
    let field = Field::new();
    let t = Tetromino::new(p(3, 18), Shape::I);
    let r = t.try_rotate(RotateDir::CW, &field).expect("turn fits");
    assert_eq!(r.root_pos, p(3, 18));
    assert_eq!(r.rotation, Rotations::One);
    assert_eq!(r.shape, Shape::I);
}

#[test]
fn rotate_uses_first_fitting_kick() {
    // I turning clockwise from Zero against the left wall: in place it would
    // leave the grid at x = -1 ... its candidates are (0,0), (-2,0), (1,0), ...
    let field = Field::new();
    let t = Tetromino::new(p(-2, 10), Shape::I);
    // layout Zero of I covers x = -2..1 at y = 12: not open, but turning is judged
    // on the turned piece: rotation One occupies column root.x + 2 = 0.
    let r = t.try_rotate(RotateDir::CW, &field).expect("turn fits");
    assert_eq!(r.root_pos, p(-2, 10));
    let wall = Tetromino::new(p(-3, 10), Shape::I);
    // in place the turned piece is at column -1: the second candidate (-2, 0)
    // is further out, the third (1, 0) brings it to column 0.
    let r = wall.try_rotate(RotateDir::CW, &field).expect("kick fits");
    assert_eq!(r.root_pos, p(-2, 10));
    assert_eq!(r.rotation, Rotations::One);
}

#[test]
fn rotate_fails_when_no_kick_fits() {
    let mut field = Field::new();
    for y in 0..Field::GAME_HEIGHT {
        for x in 0..Field::WIDTH {
            if x != 0 {
                field.occupy(p(x, y), Shape::Z);
            }
        }
    }
    let t = Tetromino::new(p(-2, 10), Shape::I);
    let t = Tetromino { rotation: Rotations::One, ..t };
    assert!(t.try_rotate(RotateDir::CW, &field).is_none());
}

#[test]
fn four_clockwise_turns_on_empty_field() {
    let field = Field::new();
    for s in [Shape::I, Shape::J, Shape::L, Shape::S, Shape::Z, Shape::T] {
        let t = Tetromino::new(p(3, 18), s);
        let mut r = t;
        for _ in 0..4 {
            r = r.try_rotate(RotateDir::CW, &field).expect("turn fits");
        }
        assert_eq!(r, t);
    }
}

#[test]
fn i_lands_on_the_bottom_row() {
    let field = Field::new();
    let t = Tetromino::new(p(3, 18), Shape::I);
    let landed = t.hard_drop(&field);
    let lowest = landed.to_minos().minos.iter().map(|m| m.y).min().unwrap();
    assert_eq!(lowest, 0);
    assert_eq!(landed.root_pos, p(3, -2));
    assert_eq!(landed.hard_drop(&field), landed);
}

#[test]
fn down_and_shift_against_walls() {
    let field = Field::new();
    let t = Tetromino::new(p(0, -2), Shape::I);
    assert!(t.try_down(&field).is_none());
    assert!(t.try_shift(ShiftDir::Left, &field).is_none());
    assert_eq!(t.try_shift(ShiftDir::Right, &field).unwrap().root_pos, p(1, -2));
    let up = Tetromino::new(p(0, 0), Shape::I);
    assert_eq!(up.try_down(&field).unwrap().root_pos, p(0, -1));
}

#[test]
fn try_new_checks_the_spawn_place() {
    let mut field = Field::new();
    assert!(Tetromino::try_new(p(3, 18), Shape::T, &field).is_some());
    field.occupy(p(4, 20), Shape::O);
    assert!(Tetromino::try_new(p(3, 18), Shape::T, &field).is_none());
}

#[test]
fn minoset_queries() {
    let mut field = Field::new();
    let m = Tetromino::new(p(3, 0), Shape::O).to_minos();
    assert_eq!(m.shape(), Shape::O);
    assert!(m.contains(p(4, 2)));
    assert!(!m.contains(p(3, 2)));
    assert!(m.is_valid(&field));
    m.apply_to_field(&mut field);
    assert!(!field.is_open(p(4, 2)));
    assert!(!field.is_open(p(5, 3)));
    assert!(!m.is_valid(&field));
}

#[test]
fn kick_tables_start_in_place() {
    for s in [Shape::I, Shape::O, Shape::J, Shape::L, Shape::S, Shape::Z, Shape::T] {
        for r in [Rotations::Zero, Rotations::One, Rotations::Two, Rotations::Three] {
            for d in [RotateDir::CW, RotateDir::CCW] {
                let k = s.wall_kick_offsets(r, d);
                assert_eq!(k[0], p(0, 0));
                assert_eq!(k.len(), if s == Shape::O { 1 } else { 5 });
            }
        }
    }
    assert_eq!(
        Shape::I.wall_kick_offsets(Rotations::Zero, RotateDir::CW),
        vec![p(0, 0), p(-2, 0), p(1, 0), p(-2, -1), p(1, 2)]
    );
    assert_eq!(
        Shape::T.wall_kick_offsets(Rotations::Two, RotateDir::CCW),
        vec![p(0, 0), p(-1, 0), p(-1, 1), p(0, -2), p(-1, -2)]
    );
}
