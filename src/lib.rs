//! A toroidal grid of live and dead cells that advances one generation at a time, can be
//! edited cell by cell and resized, and the arithmetic that places it on a screen.

mod board;
pub mod rule;
mod sprite;

pub use board::{lemma_next_state_deterministic, rows_of, Board, Cell};
pub use sprite::{BoardSprite, Mode, PixelRect, MAX_PIXEL};
