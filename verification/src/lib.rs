//! Twitch-aware message handling for an IRC client.
//!
//! - [`irc`] parses raw IRCv3 wire lines into tagged messages and serializes
//!   them back; parsing a well-formed message's wire form recovers the
//!   message exactly.
//! - [`printing`] resolves raw badge tags into glyph strings through ordered
//!   threshold tables and caches the result per channel, recomputing only
//!   when the raw input changes.
//! - [`tabs`] keeps each channel's tab highlight priority, which only
//!   escalates while the channel is unfocused.
//! - [`sponge`] is the single-slot rendezvous cache that correlates the
//!   raw-protocol stream with the host's print stream by message signature.
//! - [`events`] classifies parsed messages into the presentation actions the
//!   host must perform: raids, subscriptions, rewards, moderation notices
//!   and whispers.
//! - [`strutil`] and [`strmap`] hold the string scanning, splitting and
//!   formatting primitives and the string-keyed map the caches share.

pub mod events;
pub mod irc;
pub mod printing;
pub mod sponge;
pub mod strmap;
pub mod strutil;
pub mod tabs;
