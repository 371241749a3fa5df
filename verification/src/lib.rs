//! Core rules of Kessel Sabacc: cards, decks, hands, scoring, shift tokens,
//! the round and game state machine, statistics and the bot strategies.
//!
//! All randomness is supplied by the caller through a seeded generator, so a
//! game can be replayed exactly from its seed.

use vstd::prelude::*;

pub mod animation;
pub mod autoplay;
pub mod bot;
pub mod card;
pub mod card_view;
pub mod controls;
pub mod conservation;
pub mod deck;
pub mod error;
pub mod game;
pub mod hand;
pub mod labels;
pub mod validity;
pub mod player;
pub mod progress;
pub mod rng;
pub mod round;
pub mod scoring;
pub mod screens;
pub mod session;
pub mod shift_token;
pub mod starfield;
pub mod stats;
pub mod text;
pub mod turn;

verus! {

/// Unique identifier for a player in the game.
pub type PlayerId = u8;

} // verus!
