//! The rules of tarock for four players.
//!
//! A game runs through bidding, announcements, the play of the contract trick by
//! trick, and scoring. Each of these is a module of its own, beside the modules for
//! the cards, the contracts and the players.

pub mod announcements;
pub mod bidding;
pub mod bonuses;
pub mod cards;
pub mod contracts;
pub mod counting;
pub mod game;
pub mod player;
pub mod scoring;
