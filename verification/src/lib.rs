//! A falling-block puzzle engine: the piece catalog, the 10 x 20 board, the
//! falling-piece controller with its scoring, the command dispatcher, and the
//! screen layout as plain glyph lists. Terminal and thread handling live with
//! the program that drives the engine.

pub mod board;
pub mod event;
pub mod game;
pub mod piece;
pub mod random;
pub mod render;
