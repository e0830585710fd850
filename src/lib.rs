//! Event distribution and command routing for a chat bot.
//!
//! `bus` caches the latest value of each kind of event and fans events out
//! to subscribers; `events` holds the event types; `pattern` and `matcher`
//! resolve a chat line to a registered command.
pub mod bus;
pub mod events;
pub mod handler;
pub mod matcher;
pub mod pattern;
