//! Core of a chat-platform voice bot: a per-guild playback session state
//! machine (queue, transport controls, ducking for one-shot interjections),
//! locator classification with retry/fallback policy for source resolution,
//! and the small codecs the bot needs (restart signal, playlist listings).
//!
//! All I/O — the chat gateway, the voice transport, the actual resolver —
//! lives outside this crate; the library makes every decision from plain
//! values and hands back the action the caller must perform.

pub mod command;
pub mod events;
pub mod interject;
pub mod listing;
pub mod queue_store;
pub mod registry;
pub mod resolver;
pub mod session;
pub mod shuffle;
pub mod signal;
pub mod speech;
pub mod textscan;
pub mod track;
