//! A single-player blackjack engine: cards, a deck that is shuffled and dealt
//! from, hands with ace-aware scoring, and the round state machine that plays
//! the dealer and decides each round. The engine also says what a terminal
//! shows of a game, line by line; writing it there is left to the caller.

pub mod card;
pub mod deck;
pub mod engine;
pub mod hand;
mod random;
pub mod screen;
pub mod text;
pub mod width;
