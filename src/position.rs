//! Grid coordinates, shift directions and the group of quarter turns.
use vstd::prelude::*;

verus! {

/// A grid coordinate along one axis.
pub type Coord = i32;

/// A cell of the grid; `y` grows upwards.
#[derive(Clone, Copy, PartialEq, Eq, Structural, Debug, Hash)]
pub struct Pos {
    pub x: Coord,
    pub y: Coord,
}

/// A one-cell sideways step.
#[derive(Clone, Copy, PartialEq, Eq, Structural, Debug)]
pub enum ShiftDir {
    Left,
    Right,
}

/// Number of clockwise rotations.
#[derive(Clone, Copy, PartialEq, Eq, Structural, Debug)]
pub enum Rotations {
    Zero,
    One,
    Two,
    Three,
}

/// A quarter turn, clockwise or counter-clockwise.
#[derive(Clone, Copy, PartialEq, Eq, Structural, Debug)]
pub enum RotateDir {
    CW,
    CCW,
}

/// Whether `v` is representable as a `Coord`.
pub open spec fn in_coord_range(v: int) -> bool {
    Coord::MIN <= v <= Coord::MAX
}

impl Pos {
    pub fn new(x: Coord, y: Coord) -> (r: Pos)
        ensures
            r == (Pos { x, y }),
    {
        Pos { x, y }
    }

    /// Whether `self + other` stays representable.
    pub open spec fn can_add(self, other: Pos) -> bool {
        in_coord_range(self.x + other.x) && in_coord_range(self.y + other.y)
    }

    /// The sum of two positions; meaningful where `can_add` holds.
    pub open spec fn plus(self, other: Pos) -> Pos {
        Pos { x: (self.x + other.x) as Coord, y: (self.y + other.y) as Coord }
    }

    /// The position one step in `dir`; meaningful where the step stays representable.
    pub open spec fn shifted(self, dir: ShiftDir) -> Pos {
        Pos { x: (self.x + dir.dx()) as Coord, y: self.y }
    }
}

/// Shorthand for `Pos::new`.
pub fn p(x: Coord, y: Coord) -> (r: Pos)
    ensures
        r == (Pos { x, y }),
{
    Pos::new(x, y)
}

impl ShiftDir {
    /// The horizontal step of the direction.
    pub open spec fn dx(self) -> int {
        match self {
            ShiftDir::Left => -1,
            ShiftDir::Right => 1,
        }
    }
}

impl RotateDir {
    /// The direction as a number of clockwise quarter turns.
    pub open spec fn steps(self) -> int {
        match self {
            RotateDir::CW => 1,
            RotateDir::CCW => 3,
        }
    }
}

impl Rotations {
    /// The number of clockwise quarter turns, in `0..4`.
    pub open spec fn count(self) -> int {
        match self {
            Rotations::Zero => 0,
            Rotations::One => 1,
            Rotations::Two => 2,
            Rotations::Three => 3,
        }
    }

    /// The rotation state reached after `n` clockwise quarter turns from `Zero`.
    pub open spec fn from_count(n: int) -> Rotations {
        let m = n % 4;
        if m == 0 {
            Rotations::Zero
        } else if m == 1 {
            Rotations::One
        } else if m == 2 {
            Rotations::Two
        } else {
            Rotations::Three
        }
    }

    /// The rotation state after turning once in `dir`.
    pub open spec fn turned(self, dir: RotateDir) -> Rotations {
        Rotations::from_count(self.count() + dir.steps())
    }
}

impl core::ops::Add<Pos> for Pos {
    type Output = Pos;

    fn add(self, other: Pos) -> (r: Pos)
        ensures
            r == self.plus(other),
    {
        Pos::new(self.x + other.x, self.y + other.y)
    }
}

impl vstd::std_specs::ops::AddSpecImpl<Pos> for Pos {
    open spec fn obeys_add_spec() -> bool {
        true
    }

    open spec fn add_req(self, rhs: Pos) -> bool {
        self.can_add(rhs)
    }

    open spec fn add_spec(self, rhs: Pos) -> Pos {
        self.plus(rhs)
    }
}

impl core::ops::Add<ShiftDir> for Pos {
    type Output = Pos;

    fn add(self, other: ShiftDir) -> (r: Pos)
        ensures
            r == self.shifted(other),
    {
        let dx: Coord = match other {
            ShiftDir::Left => -1,
            ShiftDir::Right => 1,
        };
        Pos::new(self.x + dx, self.y)
    }
}

impl vstd::std_specs::ops::AddSpecImpl<ShiftDir> for Pos {
    open spec fn obeys_add_spec() -> bool {
        true
    }

    open spec fn add_req(self, rhs: ShiftDir) -> bool {
        in_coord_range(self.x + rhs.dx())
    }

    open spec fn add_spec(self, rhs: ShiftDir) -> Pos {
        self.shifted(rhs)
    }
}

impl core::ops::Add<RotateDir> for Rotations {
    type Output = Rotations;

    fn add(self, other: RotateDir) -> (r: Rotations)
        ensures
            r == self.turned(other),
    {
        let delta: u8 = match other {
            RotateDir::CW => 1,
            RotateDir::CCW => 3,
        };
        let count: u8 = match self {
            Rotations::Zero => 0,
            Rotations::One => 1,
            Rotations::Two => 2,
            Rotations::Three => 3,
        };
        match (count + delta) % 4 {
            0 => Rotations::Zero,
            1 => Rotations::One,
            2 => Rotations::Two,
            _ => Rotations::Three,
        }
    }
}

impl vstd::std_specs::ops::AddSpecImpl<RotateDir> for Rotations {
    open spec fn obeys_add_spec() -> bool {
        true
    }

    open spec fn add_req(self, rhs: RotateDir) -> bool {
        true
    }

    open spec fn add_spec(self, rhs: RotateDir) -> Rotations {
        self.turned(rhs)
    }
}

/// The quarter turns form a cyclic group: four clockwise turns come back to
/// the starting state, and a counter-clockwise turn undoes a clockwise one.
pub proof fn lemma_four_clockwise_turns(r: Rotations)
    ensures
        r.turned(RotateDir::CW).turned(RotateDir::CW).turned(RotateDir::CW).turned(RotateDir::CW)
            == r,
        r.turned(RotateDir::CW).turned(RotateDir::CCW) == r,
{
}

} // verus!
