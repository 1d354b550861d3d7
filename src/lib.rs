//! Deckbuilding odds: the chance of having drawn at least one card of each
//! category of a deck by each turn of the game.
pub mod category;
pub mod input;
pub mod number;
pub mod render;
pub mod stats;
pub mod text;
