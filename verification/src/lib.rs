pub mod cards;
pub mod deck;
pub mod eval;
pub mod hand;
