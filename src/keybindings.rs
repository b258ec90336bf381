//! The discrete player commands that drive the piece in play.
use vstd::prelude::*;
use crate::position::{RotateDir, ShiftDir};

verus! {

/// A player command, already debounced and repeat-processed.
#[derive(Clone, Copy, PartialEq, Eq, Structural, Debug)]
pub enum Trigger {
    Shift(ShiftDir),
    SoftDown,
    Rotate(RotateDir),
    HardDrop,
    HoldPiece,
}

} // verus!
