//! Coordination core for a multiplayer typing-race server.
//!
//! The heart of the crate is the real-time coordination engine: quick
//! matchmaking into fixed-size lobbies, persistent host-controlled rooms with
//! a per-player readiness state machine, and transient race sessions that
//! relay progress events between players.  Each coordinator is a sequential
//! state machine: it consumes one event at a time and returns the messages to
//! deliver and the timers to arm, so the surrounding server only moves values
//! between sockets, mailboxes and these verified transitions.
//!
//! Around the engine sit the request-level helpers of the same server:
//! credential validation, auth-token bookkeeping, result pagination, and the
//! parameter types of the typing-test endpoints.

pub mod auth;
pub mod common;
pub mod connection;
pub mod counter;
pub mod matchmaking;
pub mod preferences;
pub mod protocol;
pub mod results;
pub mod rng;
pub mod room;
pub mod room_manager;
pub mod session;
pub mod typing_test;
