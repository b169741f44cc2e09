//! Session-driven command dispatcher for a chat front end to an issue tracker.
//!
//! Inbound events are normalized into commands, commands drive a per-user
//! conversation state machine, and inline-action parameters travel through a
//! size-bounded correlation token.
pub mod auth;
pub mod commands;
pub mod decimal;
pub mod handles;
pub mod jsonstr;
pub mod keyboard;
pub mod models;
pub mod params;
pub mod query;
pub mod session;
pub mod states;
pub mod text;
pub mod token;
