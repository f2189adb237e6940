//! A game of snake on a square grid whose edges wrap round: the board with its
//! walls, the game that moves, grows and ends the snake, the drawing of both as
//! a grid of glyphs, and the state of the screens that edit boards, play games
//! and keep scores.

pub mod board;
pub mod boards;
pub mod create_board;
pub mod direction;
pub mod game;
pub mod point;
pub mod scoreboard;
pub mod session;

pub use board::{Board, Wall};
pub use boards::Boards;
pub use create_board::{CreateBoardTui, Key, Stage};
pub use direction::Direction;
pub use game::{Game, GameError};
pub use point::Point;
pub use scoreboard::Scoreboard;
pub use session::{App, GameOverTui, GameTui, SelectBoardTuiResult, State};
