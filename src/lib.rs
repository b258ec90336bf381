//! Simulation core of a falling-block puzzle game: piece geometry, movement
//! and rotation rules, gravity and lock-delay timing, line clearing, piece
//! sequencing and the session state that ties them together.
pub mod controlled;
pub mod field;
pub mod gamestate;
pub mod input;
pub mod keybindings;
pub mod lockdelay;
pub mod position;
pub mod random_bag;
pub mod render;
pub mod shapes;
pub mod tetromino;
pub mod time;
