//! Command-boundary decisions and the error taxonomy.
//!
//! Every error here is recovered at the command boundary — reported to the
//! caller, never fatal — and each carries what the report needs.

use vstd::prelude::*;

use crate::resolver::ResolutionFailure;

verus! {

/// What a join request should do, decided before any transport call.
#[derive(Clone, Copy, PartialEq, Eq, Structural, Debug)]
pub enum JoinPlan {
    /// The bot already holds a voice connection in this guild; nothing to
    /// do.
    AlreadyConnected,
    /// The caller is in no voice channel; there is nowhere to join.
    NoVoiceChannel,
    /// Connect to the caller's voice channel.
    Connect(u64),
}

/// Decide a join: an existing connection wins, then the caller must be in a
/// voice channel, and only then is a connect attempted.
pub fn join_plan(already_connected: bool, caller_channel: Option<u64>) -> (r: JoinPlan)
    ensures
        r == (if already_connected {
            JoinPlan::AlreadyConnected
        } else {
            match caller_channel {
                Some(c) => JoinPlan::Connect(c),
                None => JoinPlan::NoVoiceChannel,
            }
        }),
{
    if already_connected {
        JoinPlan::AlreadyConnected
    } else {
        match caller_channel {
            Some(c) => JoinPlan::Connect(c),
            None => JoinPlan::NoVoiceChannel,
        }
    }
}

/// Everything a command can report instead of succeeding.
pub enum BotError {
    /// A control command arrived while no session or voice connection
    /// exists; nothing changed.
    NotConnected,
    /// The voice-channel join was rejected; no session was created.
    JoinDenied,
    /// A locator could not be resolved after every fallback strategy.
    ResolutionFailed(ResolutionFailure),
    /// One playlist member failed; the rest were still processed.
    PartialPlaylistFailure(ResolutionFailure),
    /// A voice-transport operation did not complete within its bound; every
    /// held resource was released before reporting.
    TransportTimeout,
    /// An interjection's cleanup failed; logged only, never propagated.
    InterjectionCleanupFailure,
}

impl BotError {
    /// The headline the caller shows for this error.
    pub fn headline(&self) -> (r: String)
        ensures
            self matches BotError::NotConnected ==> r@ == "Not in a voice channel."@,
            self matches BotError::JoinDenied ==> r@ == "Error joining channel."@,
            self matches BotError::ResolutionFailed(_) ==> r@ == "Could not resolve that."@,
            self matches BotError::PartialPlaylistFailure(_) ==> r@
                == "Some playlist entries failed."@,
            self matches BotError::TransportTimeout ==> r@ == "The voice transport timed out."@,
            self matches BotError::InterjectionCleanupFailure ==> r@
                == "Cleanup after an interjection failed."@,
    {
        match self {
            BotError::NotConnected => String::from_str("Not in a voice channel."),
            BotError::JoinDenied => String::from_str("Error joining channel."),
            BotError::ResolutionFailed(_) => String::from_str("Could not resolve that."),
            BotError::PartialPlaylistFailure(_) => String::from_str(
                "Some playlist entries failed.",
            ),
            BotError::TransportTimeout => String::from_str("The voice transport timed out."),
            BotError::InterjectionCleanupFailure => String::from_str(
                "Cleanup after an interjection failed.",
            ),
        }
    }
}

} // verus!
