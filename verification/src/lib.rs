pub mod board;
pub mod cell;
pub mod laws;
