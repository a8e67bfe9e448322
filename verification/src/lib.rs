//! A verified model of a console rummy-style card game for two to four
//! players: the 53-identity card model, a double-ended deck with two
//! custom shuffle passes, per-player hands, a rotating turn queue, and
//! the pickup/discard turn logic, each with a proved contract.

pub mod card;
pub mod deck;
pub mod game;
pub mod input;
pub mod player;
mod rng;

use vstd::prelude::*;

verus! {

/// Everything that can go wrong in a game: a configuration outside the
/// supported player counts, a deal or draw that the deck cannot cover,
/// a pickup from an empty pile, or a discard index outside the hand.
#[derive(Debug, Clone, Copy, PartialEq, Eq, Structural)]
pub enum GameError {
    InvalidPlayerCount,
    NotEnoughCards,
    EmptyDeck,
    EmptyPile,
    InvalidDiscardIndex,
}

} // verus!
