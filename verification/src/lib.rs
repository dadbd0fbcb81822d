//! A verified engine for a grid-based snake game: the snake's body and
//! movement, collision detection against the border ring and the body
//! itself, apple placement, and the per-tick game state machine.
//!
//! Rendering and window handling are presentation concerns and live
//! outside this library; the engine works on plain cell coordinates and
//! logical directions, and is driven by key events and elapsed time in
//! milliseconds.

pub mod block;
pub mod game;
pub mod snake;
