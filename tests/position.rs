use blocks::position::{p, RotateDir, Rotations, ShiftDir};

#[test]
fn add_pos() {
    assert_eq!(p(1, 2) + p(3, 4), p(4, 6));
}

#[test]
fn shift_pos() {
    assert_eq!(p(4, 8) + ShiftDir::Left, p(3, 8));
    assert_eq!(p(4, 8) + ShiftDir::Right, p(5, 8));
}

#[test]
fn add_rotations() {
    assert_eq!(Rotations::Two, Rotations::One + RotateDir::CW);
    assert_eq!(Rotations::Three, Rotations::Zero + RotateDir::CCW);
    assert_eq!(Rotations::Zero, Rotations::Three + RotateDir::CW);
}

#[test]
fn four_clockwise_turns_return() {
    for r in [Rotations::Zero, Rotations::One, Rotations::Two, Rotations::Three] {
        let back = r + RotateDir::CW + RotateDir::CW + RotateDir::CW + RotateDir::CW;
        assert_eq!(back, r);
        assert_eq!(r + RotateDir::CW + RotateDir::CCW, r);
    }
}
