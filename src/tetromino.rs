//! One piece in play and its movement rules against a field.
use vstd::prelude::*;
use crate::field::{cells_oracle, on_grid, oracle, CheckableField, FieldBlock, FIELD_CELLS};
use crate::position::{in_coord_range, Coord, Pos, RotateDir, Rotations, ShiftDir};
use crate::shapes::{kicks, placed, pt, root_fits, MinoSet, Shape, ShapeDef};

verus! {

/// A piece: its kind, its rotation state and the corner of its layout box.
#[derive(Clone, Copy, PartialEq, Eq, Structural, Debug)]
pub struct Tetromino {
    pub root_pos: Pos,
    pub shape: Shape,
    pub rotation: Rotations,
}

/// A well-formed piece that fits lands where it is well-formed and fits.
pub proof fn lemma_landed_keeps_fit(t: Tetromino, free: spec_fn(Pos) -> bool)
    requires
        t.wf(),
        t.fits_in(free),
    ensures
        t.landed(free).wf(),
        t.landed(free).fits_in(free),
    decreases t.root_pos.y - Coord::MIN,
{
    if let Some(d) = t.attempt(0, -1, t.rotation, free) {
        lemma_landed_keeps_fit(d, free);
    }
}

/// A turn that succeeds gives a well-formed piece that fits.
pub proof fn lemma_kick_fits(t: Tetromino, dir: RotateDir, free: spec_fn(Pos) -> bool, i: int)
    requires
        t.wf(),
    ensures
        t.kick_from(dir, free, i) matches Some(r) ==> r.wf() && r.fits_in(free),
    decreases kicks(t.shape, t.rotation, dir).len() - i,
{
    if 0 <= i < kicks(t.shape, t.rotation, dir).len() {
        lemma_kick_fits(t, dir, free, i + 1);
    }
}

impl Tetromino {
    /// The layout box lies within the coordinate range.
    pub open spec fn wf(self) -> bool {
        root_fits(self.root_pos)
    }

    /// The absolute positions of the piece's minos.
    pub open spec fn cells(self) -> Seq<Pos> {
        placed(self.shape, self.rotation, self.root_pos)
    }

    /// Whether every mino of the piece is on a cell that `free` holds open.
    pub open spec fn fits_in(self, free: spec_fn(Pos) -> bool) -> bool {
        forall|k: int| 0 <= k < 4 ==> free(#[trigger] self.cells()[k])
    }

    /// Whether translating the layout box by `(dx, dy)` keeps it within the coordinate range.
    pub open spec fn can_move(self, dx: int, dy: int) -> bool {
        in_coord_range(self.root_pos.x + dx) && in_coord_range(self.root_pos.y + dy)
            && root_fits(pt(self.root_pos.x + dx, self.root_pos.y + dy))
    }

    /// The piece translated by `(dx, dy)` and put in rotation state `rot`.
    pub open spec fn moved(self, dx: int, dy: int, rot: Rotations) -> Tetromino {
        Tetromino {
            root_pos: pt(self.root_pos.x + dx, self.root_pos.y + dy),
            shape: self.shape,
            rotation: rot,
        }
    }

    /// The moved piece where it is representable and fits; `None` otherwise.
    pub open spec fn attempt(self, dx: int, dy: int, rot: Rotations, free: spec_fn(Pos) -> bool) -> Option<
        Tetromino,
    > {
        if self.can_move(dx, dy) && self.moved(dx, dy, rot).fits_in(free) {
            Some(self.moved(dx, dy, rot))
        } else {
            None
        }
    }

    /// The result of trying the kick candidates from index `i` on, in order, for a
    /// turn in `dir`: the first that fits, or `None`.
    pub open spec fn kick_from(self, dir: RotateDir, free: spec_fn(Pos) -> bool, i: int) -> Option<
        Tetromino,
    >
        decreases kicks(self.shape, self.rotation, dir).len() - i,
    {
        let offsets = kicks(self.shape, self.rotation, dir);
        if i < 0 || i >= offsets.len() {
            None
        } else {
            match self.attempt(
                offsets[i].x as int,
                offsets[i].y as int,
                self.rotation.turned(dir),
                free,
            ) {
                Some(t) => Some(t),
                None => self.kick_from(dir, free, i + 1),
            }
        }
    }

    /// The outcome of a turn in `dir`: the first kick candidate that fits.
    pub open spec fn rotated(self, dir: RotateDir, free: spec_fn(Pos) -> bool) -> Option<Tetromino> {
        self.kick_from(dir, free, 0)
    }

    /// Where the piece comes to rest when moved down for as long as it fits.
    pub open spec fn landed(self, free: spec_fn(Pos) -> bool) -> Tetromino
        decreases self.root_pos.y - Coord::MIN,
    {
        match self.attempt(0, -1, self.rotation, free) {
            Some(t) => t.landed(free),
            None => self,
        }
    }

    /// A piece of `s` in rotation state `Zero` with its layout box at `p`.
    pub fn new(p: Pos, s: Shape) -> (r: Tetromino)
        ensures
            r == (Tetromino { root_pos: p, shape: s, rotation: Rotations::Zero }),
    {
        Tetromino { root_pos: p, shape: s, rotation: Rotations::Zero }
    }

    /// A piece of `s` in rotation state `Zero` with its layout box at `p`, if it
    /// fits in `field`.
    pub fn try_new<F: CheckableField>(p: Pos, s: Shape, field: &F) -> (r: Option<Tetromino>)
        requires
            root_fits(p),
        ensures
            r == (if Tetromino::spec_new(p, s).fits_in(oracle(field)) {
                Some(Tetromino::spec_new(p, s))
            } else {
                None
            }),
    {
        Tetromino::new(p, s).if_valid(field)
    }

    /// A piece of `s` in rotation state `Zero` with its layout box at `p`.
    pub open spec fn spec_new(p: Pos, s: Shape) -> Tetromino {
        Tetromino { root_pos: p, shape: s, rotation: Rotations::Zero }
    }

    /// The minos of the piece.
    pub fn to_minos(&self) -> (r: MinoSet)
        requires
            self.wf(),
        ensures
            r.minos@ == self.cells(),
            r.shape == self.shape,
    {
        self.shape.to_minos(self.rotation, self.root_pos)
    }

    /// The piece moved down for as long as it fits in `field`.
    pub fn hard_drop<F: CheckableField>(&self, field: &F) -> (r: Tetromino)
        requires
            self.wf(),
        ensures
            r == self.landed(oracle(field)),
            r.wf(),
            r.shape == self.shape,
            r.rotation == self.rotation,
    {
        let mut result = *self;
        loop
            invariant
                result.wf(),
                result.shape == self.shape,
                result.rotation == self.rotation,
                result.landed(oracle(field)) == self.landed(oracle(field)),
            decreases result.root_pos.y - Coord::MIN,
        {
            match result.try_down(field) {
                Some(new) => {
                    result = new;
                },
                None => {
                    return result;
                },
            }
        }
    }

    /// The piece one cell lower, if that fits; `None` means it is grounded.
    pub fn try_down<F: CheckableField>(&self, field: &F) -> (r: Option<Tetromino>)
        requires
            self.wf(),
        ensures
            r == self.attempt(0, -1, self.rotation, oracle(field)),
            r matches Some(t) ==> t.wf(),
    {
        self.translated(0, -1, self.rotation, field)
    }

    /// The piece one cell in `dir`, if that fits.
    pub fn try_shift<F: CheckableField>(&self, dir: ShiftDir, field: &F) -> (r: Option<Tetromino>)
        requires
            self.wf(),
        ensures
            r == self.attempt(dir.dx(), 0, self.rotation, oracle(field)),
            r matches Some(t) ==> t.wf(),
    {
        let dx: Coord = match dir {
            ShiftDir::Left => -1,
            ShiftDir::Right => 1,
        };
        self.translated(dx, 0, self.rotation, field)
    }

    /// The piece turned once in `dir`: the first wall-kick candidate, in table
    /// order, at which it fits; `None` if none does.
    pub fn try_rotate<F: CheckableField>(&self, dir: RotateDir, field: &F) -> (r: Option<Tetromino>)
        requires
            self.wf(),
        ensures
            r == self.rotated(dir, oracle(field)),
            r matches Some(t) ==> t.wf(),
    {
        let new_rotation = self.rotation + dir;
        let offsets = self.shape.wall_kick_offsets(self.rotation, dir);
        let mut i: usize = 0;
        while i < offsets.len()
            invariant
                self.wf(),
                new_rotation == self.rotation.turned(dir),
                offsets@ == kicks(self.shape, self.rotation, dir),
                i <= offsets.len(),
                self.kick_from(dir, oracle(field), 0) == self.kick_from(dir, oracle(field), i as int),
            decreases offsets.len() - i,
        {
            let kick = offsets[i];
            let candidate = self.translated(kick.x, kick.y, new_rotation, field);
            if candidate.is_some() {
                return candidate;
            }
            i = i + 1;
        }
        None
    }

    /// The piece translated by `(dx, dy)` and put in rotation state `rot`, if it
    /// stays representable and fits in `field`.
    fn translated<F: CheckableField>(&self, dx: Coord, dy: Coord, rot: Rotations, field: &F) -> (r:
        Option<Tetromino>)
        requires
            self.wf(),
        ensures
            r == self.attempt(dx as int, dy as int, rot, oracle(field)),
            r matches Some(t) ==> t.wf(),
    {
        let x = self.root_pos.x as i64 + dx as i64;
        let y = self.root_pos.y as i64 + dy as i64;
        if x < Coord::MIN as i64 || x > (Coord::MAX - 3) as i64 || y < Coord::MIN as i64 || y > (
        Coord::MAX - 3) as i64 {
            return None;
        }
        let moved = Tetromino {
            root_pos: Pos { x: x as Coord, y: y as Coord },
            shape: self.shape,
            rotation: rot,
        };
        moved.if_valid(field)
    }

    /// The piece itself if it fits in `field`.
    fn if_valid<F: CheckableField>(self, field: &F) -> (r: Option<Tetromino>)
        requires
            self.wf(),
        ensures
            r == (if self.fits_in(oracle(field)) {
                Some(self)
            } else {
                None
            }),
    {
        if self.to_minos().is_valid(field) {
            Some(self)
        } else {
            None
        }
    }
}

/// The first wall-kick candidate of every table is the turn in place.
pub proof fn lemma_first_kick_in_place(s: Shape, r: Rotations, d: RotateDir)
    ensures
        kicks(s, r, d).len() >= 1,
        kicks(s, r, d)[0] == pt(0, 0),
{
}

/// Where the turn in place fits, a turn takes it: no later candidate is tried.
pub proof fn lemma_turn_in_place_first(t: Tetromino, dir: RotateDir, free: spec_fn(Pos) -> bool)
    requires
        t.wf(),
        t.moved(0, 0, t.rotation.turned(dir)).fits_in(free),
    ensures
        t.rotated(dir, free) == Some(t.moved(0, 0, t.rotation.turned(dir))),
{
    lemma_first_kick_in_place(t.shape, t.rotation, dir);
}

/// Where every cell is open, four clockwise turns of any piece bring it back
/// to where it started.
pub proof fn lemma_four_turns_on_open_ground(t: Tetromino)
    requires
        t.wf(),
    ensures
        ({
            let free = |q: Pos| true;
            let t1 = t.rotated(RotateDir::CW, free)->Some_0;
            let t2 = t1.rotated(RotateDir::CW, free)->Some_0;
            let t3 = t2.rotated(RotateDir::CW, free)->Some_0;
            &&& t.rotated(RotateDir::CW, free) is Some
            &&& t1.rotated(RotateDir::CW, free) is Some
            &&& t2.rotated(RotateDir::CW, free) is Some
            &&& t3.rotated(RotateDir::CW, free) == Some(t)
        }),
{
    let free = |q: Pos| true;
    lemma_turn_in_place_first(t, RotateDir::CW, free);
    let t1 = t.moved(0, 0, t.rotation.turned(RotateDir::CW));
    lemma_turn_in_place_first(t1, RotateDir::CW, free);
    let t2 = t1.moved(0, 0, t1.rotation.turned(RotateDir::CW));
    lemma_turn_in_place_first(t2, RotateDir::CW, free);
    let t3 = t2.moved(0, 0, t2.rotation.turned(RotateDir::CW));
    lemma_turn_in_place_first(t3, RotateDir::CW, free);
    crate::position::lemma_four_clockwise_turns(t.rotation);
}

/// A landed piece stays where it is when dropped again.
pub proof fn lemma_landed_is_final(t: Tetromino, free: spec_fn(Pos) -> bool)
    ensures
        t.landed(free).landed(free) == t.landed(free),
        t.landed(free).attempt(0, -1, t.landed(free).rotation, free) is None,
    decreases t.root_pos.y - Coord::MIN,
{
    if let Some(d) = t.attempt(0, -1, t.rotation, free) {
        lemma_landed_is_final(d, free);
    }
}

/// The cells of a piece moved one row down are its cells one row lower.
pub proof fn lemma_cells_down(t: Tetromino)
    requires
        t.wf(),
        t.can_move(0, -1),
    ensures
        forall|k: int|
            0 <= k < 4 ==> #[trigger] t.moved(0, -1, t.rotation).cells()[k] == pt(
                t.cells()[k].x as int,
                t.cells()[k].y - 1,
            ),
{
    let d = t.moved(0, -1, t.rotation);
    assert forall|k: int| 0 <= k < 4 implies #[trigger] d.cells()[k] == pt(
        t.cells()[k].x as int,
        t.cells()[k].y - 1,
    ) by {
        let c = crate::shapes::layout(t.shape, t.rotation)[k];
        assert(0 <= c.x <= 3 && 0 <= c.y <= 3);
        assert(t.cells()[k] == t.root_pos.plus(c));
        assert(d.cells()[k] == d.root_pos.plus(c));
        assert(d.root_pos.x == t.root_pos.x && d.root_pos.y == t.root_pos.y - 1);
    }
}

/// On an empty field a piece that fits falls until its lowest mino rests on
/// the bottom row.
pub proof fn lemma_lands_on_bottom(t: Tetromino, cells: Seq<FieldBlock>)
    requires
        cells.len() == FIELD_CELLS,
        forall|i: int| 0 <= i < FIELD_CELLS ==> cells[i] == FieldBlock::Empty,
        t.wf(),
        t.fits_in(cells_oracle(cells)),
    ensures
        forall|k: int| 0 <= k < 4 ==> #[trigger] t.landed(cells_oracle(cells)).cells()[k].y >= 0,
        exists|k: int| 0 <= k < 4 && #[trigger] t.landed(cells_oracle(cells)).cells()[k].y == 0,
    decreases t.root_pos.y - Coord::MIN,
{
    let free = cells_oracle(cells);
    assert forall|k: int| 0 <= k < 4 implies on_grid(
        #[trigger] t.cells()[k].x as int,
        t.cells()[k].y as int,
    ) by {
        assert(free(t.cells()[k]));
    }
    let c0 = crate::shapes::layout(t.shape, t.rotation)[0];
    assert(0 <= c0.x <= 3 && 0 <= c0.y <= 3);
    assert(t.cells()[0].y == t.root_pos.y + c0.y);
    if exists|k: int| 0 <= k < 4 && #[trigger] t.cells()[k].y == 0 {
        let k0 = choose|k: int| 0 <= k < 4 && #[trigger] t.cells()[k].y == 0;
        if t.can_move(0, -1) {
            lemma_cells_down(t);
            let d = t.moved(0, -1, t.rotation);
            assert(!free(d.cells()[k0]));
        }
        assert(t.attempt(0, -1, t.rotation, free) is None);
        assert(t.landed(free) == t);
    } else {
        assert(t.can_move(0, -1));
        lemma_cells_down(t);
        let d = t.moved(0, -1, t.rotation);
        assert forall|k: int| 0 <= k < 4 implies free(#[trigger] d.cells()[k]) by {
            assert(t.cells()[k].y != 0);
            assert(free(t.cells()[k]));
        }
        assert(d.fits_in(free));
        assert(t.attempt(0, -1, t.rotation, free) == Some(d));
        lemma_lands_on_bottom(d, cells);
    }
}

} // verus!
