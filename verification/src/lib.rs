//! Client-side logic for a push-based exchange data feed.
//!
//! The crate holds the part of a streaming client that can be reasoned about
//! without a socket: the records that travel over the feed, the text of the
//! frames a client sends, and the session state machine that decides what to
//! do with each tick of the keepalive timer and each frame that arrives.
//! A driver owns the socket and the timer, performs what the session asks for
//! and reports back what happened.

pub mod rest;
pub mod ws;
