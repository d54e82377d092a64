//! Rules engine for a four-player trick-taking card game (a Belote/Coinche
//! variant): card and deck model, bidding with double/redouble escalation,
//! play legality, trick resolution, and round scoring, all with verified
//! contracts. Network transport and message encoding live outside the
//! library and drive it through plain values.

pub mod actions;
pub mod bid;
pub mod card;
pub mod deck;
pub mod game;
pub mod messages;
pub mod player;
pub mod points;
pub mod trump;
