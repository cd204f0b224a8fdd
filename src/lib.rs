//! A falling-block puzzle engine: a board of settled cells, a catalog of
//! four-cell shapes, and the gravity, movement and lock rules that move the
//! one falling piece over the board.
pub mod board;
pub mod catalog;
pub mod game;
pub mod piece;
pub mod timer;

pub use board::{Board, BOARD_ROWS, HEIGHT, WIDTH};
pub use catalog::{Color, ShapeKind, SHAPE_COUNT};
pub use game::{Block, CellState, Game, GRAVITY_PERIOD_MS, INPUT_PERIOD_MS};
pub use piece::{Piece, Position};
pub use timer::IntervalTimer;
