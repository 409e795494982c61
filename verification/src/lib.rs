//! Matchmaking and session-lifecycle engine for a two-player
//! rock-paper-scissors server.
//!
//! The crate holds the rules of the game, the per-session state machine and
//! the matchmaker that pairs waiting participants, each with a mathematical
//! model and machine-checked contracts. Transport, serialization and
//! scheduling live outside of it: every operation takes plain values and
//! hands back the protocol events that have to be delivered.

mod ambient;
pub mod application;
pub mod config;
pub mod domain;
pub mod infrastructure;
