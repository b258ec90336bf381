//! The seven piece kinds: their mino layouts and wall-kick tables.
use vstd::prelude::*;
use crate::field::{cell_index, on_grid, CheckableField, Field, FieldBlock};
use crate::position::{p, Coord, Pos, RotateDir, Rotations};
use crate::render::{BlockRenderInstructions, DrawBlockType, RenderBlockInfo};

verus! {

/// One of the seven piece kinds.
#[derive(Clone, Copy, PartialEq, Eq, Structural, Debug)]
pub enum Shape {
    I,
    O,
    J,
    L,
    S,
    Z,
    T,
}

/// The four cells of one piece, at absolute positions, and the piece's kind.
#[derive(Clone, Copy, Debug)]
pub struct MinoSet {
    pub minos: [Pos; 4],
    pub shape: Shape,
}

/// Walks the minos of a preview piece.
pub struct PreviewRenderBlocksIterator {
    minos: MinoSet,
    i: usize,
}

/// Geometry of a piece kind.
pub trait ShapeDef {
    /// The minos of the piece in `rotation` with its layout box's corner at `root_pos`.
    fn to_minos(&self, rotation: Rotations, root_pos: Pos) -> MinoSet
        requires
            root_fits(root_pos),
    ;

    /// The translations to try, in order, when turning from `initial_rot` in `rot_dir`.
    fn wall_kick_offsets(&self, initial_rot: Rotations, rot_dir: RotateDir) -> Vec<Pos>;
}

/// Whether a layout box with its corner at `root` lies within the coordinate range:
/// every layout offset is in `0..4` on both axes.
pub open spec fn root_fits(root: Pos) -> bool {
    root.x <= Coord::MAX - 3 && root.y <= Coord::MAX - 3
}

/// A position from mathematical integers.
pub open spec fn pt(x: int, y: int) -> Pos {
    Pos { x: x as Coord, y: y as Coord }
}

/// The offsets of the four minos of `s` in `r` within its layout box.
pub open spec fn layout(s: Shape, r: Rotations) -> Seq<Pos> {
    match s {
        Shape::O => seq![pt(1, 2), pt(2, 2), pt(1, 3), pt(2, 3)],
        Shape::I => match r {
            Rotations::Zero => seq![pt(0, 2), pt(1, 2), pt(2, 2), pt(3, 2)],
            Rotations::One => seq![pt(2, 0), pt(2, 1), pt(2, 2), pt(2, 3)],
            Rotations::Two => seq![pt(0, 1), pt(1, 1), pt(2, 1), pt(3, 1)],
            Rotations::Three => seq![pt(1, 0), pt(1, 1), pt(1, 2), pt(1, 3)],
        },
        Shape::J => match r {
            Rotations::Zero => seq![pt(0, 3), pt(0, 2), pt(1, 2), pt(2, 2)],
            Rotations::One => seq![pt(1, 1), pt(1, 2), pt(1, 3), pt(2, 3)],
            Rotations::Two => seq![pt(0, 2), pt(1, 2), pt(2, 2), pt(2, 1)],
            Rotations::Three => seq![pt(0, 1), pt(1, 1), pt(1, 2), pt(1, 3)],
        },
        Shape::L => match r {
            Rotations::Zero => seq![pt(2, 3), pt(0, 2), pt(1, 2), pt(2, 2)],
            Rotations::One => seq![pt(1, 1), pt(1, 2), pt(1, 3), pt(2, 1)],
            Rotations::Two => seq![pt(0, 2), pt(1, 2), pt(2, 2), pt(0, 1)],
            Rotations::Three => seq![pt(0, 3), pt(1, 1), pt(1, 2), pt(1, 3)],
        },
        Shape::S => match r {
            Rotations::Zero => seq![pt(0, 2), pt(1, 2), pt(1, 3), pt(2, 3)],
            Rotations::One => seq![pt(1, 3), pt(1, 2), pt(2, 2), pt(2, 1)],
            Rotations::Two => seq![pt(0, 1), pt(1, 1), pt(1, 2), pt(2, 2)],
            Rotations::Three => seq![pt(0, 3), pt(0, 2), pt(1, 2), pt(1, 1)],
        },
        Shape::Z => match r {
            Rotations::Zero => seq![pt(0, 3), pt(1, 3), pt(1, 2), pt(2, 2)],
            Rotations::One => seq![pt(1, 1), pt(1, 2), pt(2, 2), pt(2, 3)],
            Rotations::Two => seq![pt(0, 2), pt(1, 2), pt(1, 1), pt(2, 1)],
            Rotations::Three => seq![pt(0, 1), pt(0, 2), pt(1, 2), pt(1, 3)],
        },
        Shape::T => match r {
            Rotations::Zero => seq![pt(0, 2), pt(1, 2), pt(1, 3), pt(2, 2)],
            Rotations::One => seq![pt(1, 3), pt(1, 2), pt(1, 1), pt(2, 2)],
            Rotations::Two => seq![pt(0, 2), pt(1, 2), pt(2, 2), pt(1, 1)],
            Rotations::Three => seq![pt(0, 2), pt(1, 1), pt(1, 2), pt(1, 3)],
        },
    }
}

/// The translations tried, in order, when `s` turns from `r` in `d`.
pub open spec fn kicks(s: Shape, r: Rotations, d: RotateDir) -> Seq<Pos> {
    match (s, d) {
        (Shape::O, _) => seq![pt(0, 0)],
        (Shape::I, RotateDir::CW) => match r {
            Rotations::Zero => seq![pt(0, 0), pt(-2, 0), pt(1, 0), pt(-2, -1), pt(1, 2)],
            Rotations::One => seq![pt(0, 0), pt(-1, 0), pt(2, 0), pt(-1, 2), pt(2, -1)],
            Rotations::Two => seq![pt(0, 0), pt(2, 0), pt(-1, 0), pt(2, 1), pt(-1, -2)],
            Rotations::Three => seq![pt(0, 0), pt(1, 0), pt(-2, 0), pt(1, -2), pt(-2, 1)],
        },
        (Shape::I, RotateDir::CCW) => match r {
            Rotations::Zero => seq![pt(0, 0), pt(-1, 0), pt(2, 0), pt(-1, 2), pt(2, -1)],
            Rotations::One => seq![pt(0, 0), pt(2, 0), pt(-1, 0), pt(2, 1), pt(-1, -2)],
            Rotations::Two => seq![pt(0, 0), pt(1, 0), pt(-2, 0), pt(1, -2), pt(-2, 1)],
            Rotations::Three => seq![pt(0, 0), pt(-2, 0), pt(1, 0), pt(-2, -1), pt(1, 2)],
        },
        (_, RotateDir::CW) => match r {
            Rotations::Zero => seq![pt(0, 0), pt(-1, 0), pt(-1, 1), pt(0, -2), pt(-1, -2)],
            Rotations::One => seq![pt(0, 0), pt(1, 0), pt(1, -1), pt(0, 2), pt(1, 2)],
            Rotations::Two => seq![pt(0, 0), pt(1, 0), pt(1, 1), pt(0, -2), pt(1, -2)],
            Rotations::Three => seq![pt(0, 0), pt(-1, 0), pt(-1, -1), pt(0, 2), pt(-1, 2)],
        },
        (_, RotateDir::CCW) => match r {
            Rotations::Zero => seq![pt(0, 0), pt(1, 0), pt(1, 1), pt(0, -2), pt(1, -2)],
            Rotations::One => seq![pt(0, 0), pt(1, 0), pt(1, -1), pt(0, 2), pt(1, 2)],
            Rotations::Two => seq![pt(0, 0), pt(-1, 0), pt(-1, 1), pt(0, -2), pt(-1, -2)],
            Rotations::Three => seq![pt(0, 0), pt(-1, 0), pt(-1, -1), pt(0, 2), pt(-1, 2)],
        },
    }
}

/// The absolute positions of the minos of `s` in `r` with its layout box at `root`.
pub open spec fn placed(s: Shape, r: Rotations, root: Pos) -> Seq<Pos> {
    layout(s, r).map_values(|c: Pos| root.plus(c))
}

/// `cells` after each position of `minos` in turn is filled with a block of `shape`.
pub open spec fn with_minos(cells: Seq<FieldBlock>, minos: Seq<Pos>, shape: Shape) -> Seq<
    FieldBlock,
>
    decreases minos.len(),
{
    if minos.len() == 0 {
        cells
    } else {
        with_minos(cells, minos.drop_last(), shape).update(
            cell_index(minos.last().x as int, minos.last().y as int),
            FieldBlock::Occupied(shape),
        )
    }
}

impl MinoSet {
    pub fn shape(&self) -> (r: Shape)
        ensures
            r == self.shape,
    {
        self.shape
    }

    /// Whether one of the minos is at `p`.
    pub fn contains(&self, p: Pos) -> (r: bool)
        ensures
            r == self.minos@.contains(p),
    {
        let mut i: usize = 0;
        while i < 4
            invariant
                i <= 4,
                forall|k: int| 0 <= k < i ==> self.minos@[k] != p,
            decreases 4 - i,
        {
            if self.minos[i] == p {
                return true;
            }
            i = i + 1;
        }
        false
    }

    /// Writes the minos into `field` as blocks of the set's shape.
    pub fn apply_to_field(&self, field: &mut Field)
        requires
            old(field).wf(),
            forall|k: int|
                0 <= k < 4 ==> on_grid(#[trigger] self.minos@[k].x as int, self.minos@[k].y as int),
        ensures
            final(field).wf(),
            final(field)@ == with_minos(old(field)@, self.minos@, self.shape),
    {
        let mut i: usize = 0;
        while i < 4
            invariant
                i <= 4,
                field.wf(),
                forall|k: int|
                    0 <= k < 4 ==> on_grid(
                        #[trigger] self.minos@[k].x as int,
                        self.minos@[k].y as int,
                    ),
                field@ == with_minos(old(field)@, self.minos@.take(i as int), self.shape),
            decreases 4 - i,
        {
            assert(self.minos@.take(i + 1).drop_last() == self.minos@.take(i as int));
            field.occupy(self.minos[i], self.shape);
            i = i + 1;
        }
        assert(self.minos@.take(4) == self.minos@);
    }

    /// Whether every mino is on a cell that `field` reports open.
    pub fn is_valid<F: CheckableField>(&self, field: &F) -> (r: bool)
        ensures
            r == forall|k: int| 0 <= k < 4 ==> field.open_at(#[trigger] self.minos@[k]),
    {
        let mut i: usize = 0;
        while i < 4
            invariant
                i <= 4,
                forall|k: int| 0 <= k < i ==> field.open_at(#[trigger] self.minos@[k]),
            decreases 4 - i,
        {
            if !field.is_open(self.minos[i]) {
                return false;
            }
            i = i + 1;
        }
        true
    }
}

impl Shape {
    /// The offsets of the minos in `rotation` within the layout box.
    fn positions(&self, rotation: Rotations) -> (r: [Pos; 4])
        ensures
            r@ == layout(*self, rotation),
    {
        let r = match self {
            Shape::O => [p(1, 2), p(2, 2), p(1, 3), p(2, 3)],
            Shape::I => match rotation {
                Rotations::Zero => [p(0, 2), p(1, 2), p(2, 2), p(3, 2)],
                Rotations::One => [p(2, 0), p(2, 1), p(2, 2), p(2, 3)],
                Rotations::Two => [p(0, 1), p(1, 1), p(2, 1), p(3, 1)],
                Rotations::Three => [p(1, 0), p(1, 1), p(1, 2), p(1, 3)],
            },
            Shape::J => match rotation {
                Rotations::Zero => [p(0, 3), p(0, 2), p(1, 2), p(2, 2)],
                Rotations::One => [p(1, 1), p(1, 2), p(1, 3), p(2, 3)],
                Rotations::Two => [p(0, 2), p(1, 2), p(2, 2), p(2, 1)],
                Rotations::Three => [p(0, 1), p(1, 1), p(1, 2), p(1, 3)],
            },
            Shape::L => match rotation {
                Rotations::Zero => [p(2, 3), p(0, 2), p(1, 2), p(2, 2)],
                Rotations::One => [p(1, 1), p(1, 2), p(1, 3), p(2, 1)],
                Rotations::Two => [p(0, 2), p(1, 2), p(2, 2), p(0, 1)],
                Rotations::Three => [p(0, 3), p(1, 1), p(1, 2), p(1, 3)],
            },
            Shape::S => match rotation {
                Rotations::Zero => [p(0, 2), p(1, 2), p(1, 3), p(2, 3)],
                Rotations::One => [p(1, 3), p(1, 2), p(2, 2), p(2, 1)],
                Rotations::Two => [p(0, 1), p(1, 1), p(1, 2), p(2, 2)],
                Rotations::Three => [p(0, 3), p(0, 2), p(1, 2), p(1, 1)],
            },
            Shape::Z => match rotation {
                Rotations::Zero => [p(0, 3), p(1, 3), p(1, 2), p(2, 2)],
                Rotations::One => [p(1, 1), p(1, 2), p(2, 2), p(2, 3)],
                Rotations::Two => [p(0, 2), p(1, 2), p(1, 1), p(2, 1)],
                Rotations::Three => [p(0, 1), p(0, 2), p(1, 2), p(1, 3)],
            },
            Shape::T => match rotation {
                Rotations::Zero => [p(0, 2), p(1, 2), p(1, 3), p(2, 2)],
                Rotations::One => [p(1, 3), p(1, 2), p(1, 1), p(2, 2)],
                Rotations::Two => [p(0, 2), p(1, 2), p(2, 2), p(1, 1)],
                Rotations::Three => [p(0, 2), p(1, 1), p(1, 2), p(1, 3)],
            },
        };
        assert(r@ =~= layout(*self, rotation));
        r
    }
}

impl ShapeDef for Shape {
    fn to_minos(&self, rotation: Rotations, root_pos: Pos) -> (r: MinoSet)
        ensures
            r.minos@ == placed(*self, rotation, root_pos),
            r.shape == *self,
    {
        let p = self.positions(rotation);
        proof {
            assert forall|k: int| 0 <= k < 4 implies root_pos.can_add(#[trigger] p@[k]) by {
                assert(0 <= p@[k].x <= 3 && 0 <= p@[k].y <= 3);
            }
        }
        let r = MinoSet {
            minos: [root_pos + p[0], root_pos + p[1], root_pos + p[2], root_pos + p[3]],
            shape: *self,
        };
        assert(r.minos@ =~= placed(*self, rotation, root_pos));
        r
    }

    fn wall_kick_offsets(&self, initial_rot: Rotations, rot_dir: RotateDir) -> (r: Vec<Pos>)
        ensures
            r@ == kicks(*self, initial_rot, rot_dir),
    {
        let r = match (self, rot_dir) {
            (Shape::O, _) => vec![p(0, 0)],
            (Shape::I, RotateDir::CW) => match initial_rot {
                Rotations::Zero => vec![p(0, 0), p(-2, 0), p(1, 0), p(-2, -1), p(1, 2)],
                Rotations::One => vec![p(0, 0), p(-1, 0), p(2, 0), p(-1, 2), p(2, -1)],
                Rotations::Two => vec![p(0, 0), p(2, 0), p(-1, 0), p(2, 1), p(-1, -2)],
                Rotations::Three => vec![p(0, 0), p(1, 0), p(-2, 0), p(1, -2), p(-2, 1)],
            },
            (Shape::I, RotateDir::CCW) => match initial_rot {
                Rotations::Zero => vec![p(0, 0), p(-1, 0), p(2, 0), p(-1, 2), p(2, -1)],
                Rotations::One => vec![p(0, 0), p(2, 0), p(-1, 0), p(2, 1), p(-1, -2)],
                Rotations::Two => vec![p(0, 0), p(1, 0), p(-2, 0), p(1, -2), p(-2, 1)],
                Rotations::Three => vec![p(0, 0), p(-2, 0), p(1, 0), p(-2, -1), p(1, 2)],
            },
            (_, RotateDir::CW) => match initial_rot {
                Rotations::Zero => vec![p(0, 0), p(-1, 0), p(-1, 1), p(0, -2), p(-1, -2)],
                Rotations::One => vec![p(0, 0), p(1, 0), p(1, -1), p(0, 2), p(1, 2)],
                Rotations::Two => vec![p(0, 0), p(1, 0), p(1, 1), p(0, -2), p(1, -2)],
                Rotations::Three => vec![p(0, 0), p(-1, 0), p(-1, -1), p(0, 2), p(-1, 2)],
            },
            (_, RotateDir::CCW) => match initial_rot {
                Rotations::Zero => vec![p(0, 0), p(1, 0), p(1, 1), p(0, -2), p(1, -2)],
                Rotations::One => vec![p(0, 0), p(1, 0), p(1, -1), p(0, 2), p(1, 2)],
                Rotations::Two => vec![p(0, 0), p(-1, 0), p(-1, 1), p(0, -2), p(-1, -2)],
                Rotations::Three => vec![p(0, 0), p(-1, 0), p(-1, -1), p(0, 2), p(-1, 2)],
            },
        };
        assert(r@ =~= kicks(*self, initial_rot, rot_dir));
        r
    }
}

impl PreviewRenderBlocksIterator {
    /// The minos still to be handed out.
    pub closed spec fn rest(&self) -> Seq<RenderBlockInfo> {
        self.minos.minos@.subrange(self.i as int, 4).map_values(
            |m: Pos| RenderBlockInfo { pos: m, block_type: DrawBlockType::Occupied(self.minos.shape) },
        )
    }

    /// The position stays within the four minos.
    pub closed spec fn wf(&self) -> bool {
        self.i <= 4
    }

    /// The next mino, drawn as occupied by the piece's kind.
    pub fn next(&mut self) -> (r: Option<RenderBlockInfo>)
        requires
            old(self).wf(),
        ensures
            final(self).wf(),
            old(self).rest().len() == 0 ==> r is None && final(self).rest() == old(self).rest(),
            old(self).rest().len() > 0 ==> r == Some(old(self).rest()[0]) && final(self).rest()
                == old(self).rest().drop_first(),
    {
        if self.i < 4 {
            let result = RenderBlockInfo {
                pos: self.minos.minos[self.i],
                block_type: DrawBlockType::Occupied(self.minos.shape),
            };
            self.i = self.i + 1;
            assert(self.rest() =~= old(self).rest().drop_first());
            Some(result)
        } else {
            None
        }
    }
}

/// The preview of a piece of `s`: its minos in rotation state `Zero` with the
/// layout box at the origin.
pub open spec fn preview_blocks(s: Shape) -> Seq<RenderBlockInfo> {
    placed(s, Rotations::Zero, Pos { x: 0, y: 0 }).map_values(
        |m: Pos| RenderBlockInfo { pos: m, block_type: DrawBlockType::Occupied(s) },
    )
}

impl BlockRenderInstructions for Shape {
    fn blocks(&self) -> (r: Vec<RenderBlockInfo>)
        ensures
            r@ == preview_blocks(*self),
    {
        let mut it = PreviewRenderBlocksIterator { minos: self.to_minos(Rotations::Zero, p(0, 0)), i: 0 };
        let mut r: Vec<RenderBlockInfo> = Vec::new();
        assert(it.rest() =~= preview_blocks(*self));
        while it.i < 4
            invariant
                it.i <= 4,
                r@ + it.rest() == preview_blocks(*self),
            decreases 4 - it.i,
        {
            let ghost before = it.rest();
            if let Some(b) = it.next() {
                r.push(b);
                assert(r@ + it.rest() =~= preview_blocks(*self)) by {
                    assert(before == seq![b] + before.drop_first());
                    assert(r@ + it.rest() =~= (r@.drop_last() + before));
                }
            }
        }
        assert(it.rest() =~= Seq::<RenderBlockInfo>::empty());
        assert(r@ =~= preview_blocks(*self));
        r
    }

    fn height_blocks(&self) -> (r: Coord)
        ensures
            r == 2,
    {
        2
    }

    fn width_blocks(&self) -> (r: Coord)
        ensures
            r == 4,
    {
        4
    }
}

} // verus!
