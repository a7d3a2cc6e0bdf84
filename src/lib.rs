pub mod board;
pub mod errors;
pub mod game;
pub mod lemmas;
pub mod piece;
