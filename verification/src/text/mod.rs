//! Text, as sequences of characters.

pub mod pieces;
pub mod order;
pub mod table;
