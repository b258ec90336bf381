//! What a renderer is told about each cell it draws.
use vstd::prelude::*;
use crate::position::{Coord, Pos};
use crate::shapes::Shape;

verus! {

/// How one cell is to be drawn.
#[derive(Clone, Copy, PartialEq, Eq, Structural, Debug)]
pub enum DrawBlockType {
    Empty,
    Occupied(Shape),
    /// Above the play area: drawn as out of play whatever it holds.
    OutOfPlay,
    /// Where the piece in play would land on a hard drop.
    GhostPiece(Shape),
    /// A full row waiting to be removed.
    ClearingLine,
}

/// One cell to draw and how.
#[derive(Clone, Copy, PartialEq, Eq, Structural, Debug)]
pub struct RenderBlockInfo {
    pub pos: Pos,
    pub block_type: DrawBlockType,
}

/// A rectangle of cells to draw.
pub trait BlockRenderInstructions {
    /// The cells to draw.
    fn blocks(&self) -> Vec<RenderBlockInfo>;

    /// Height of the rectangle, in cells.
    fn height_blocks(&self) -> Coord;

    /// Width of the rectangle, in cells.
    fn width_blocks(&self) -> Coord;
}

} // verus!
