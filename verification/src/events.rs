//! Event-side decisions: relaying driver events and spotting mentions.
//!
//! The chat gateway and the voice driver deliver their events outside this
//! crate; what the bot decides about each event is here.

use vstd::prelude::*;

use crate::interject::ClipOutcome;
use crate::signal::dec_str;
use crate::signal::u64_to_dec;
use crate::textscan::contains_chars;
use crate::textscan::contains_seq;
use crate::textscan::str_to_chars;

verus! {

/// A voice-driver notification, as the transport hands it over.
pub enum DriverEventContext {
    /// A track-lifecycle notification for one playing handle.
    Track(ClipOutcome),
    /// A core driver event, identified by its kind code.
    Core(u64),
}

/// The bot's global driver-event handler: it echoes every core driver event
/// back, so the driver keeps it registered for that kind, and consumes
/// everything else.
pub struct CustomSongbirdEventHandler;

impl CustomSongbirdEventHandler {
    pub fn new() -> CustomSongbirdEventHandler {
        CustomSongbirdEventHandler
    }

    /// The relay decision: a core driver event is handed back for
    /// re-registration under its own kind; a track event is consumed.
    pub fn act(&self, ctx: &DriverEventContext) -> (r: Option<u64>)
        ensures
            ctx matches DriverEventContext::Core(k) ==> r == Some(*k),
            ctx matches DriverEventContext::Track(_) ==> r is None,
    {
        match ctx {
            DriverEventContext::Core(k) => Some(*k),
            DriverEventContext::Track(_) => None,
        }
    }
}

/// The text that mentions the bot with this id.
pub fn mention_marker(bot_id: u64) -> (r: Vec<char>)
    ensures
        r@ =~= "<@"@ + dec_str(bot_id) + ">"@,
{
    proof {
        reveal_strlit("<@");
        reveal_strlit(">");
    }
    let mut v: Vec<char> = Vec::new();
    v.push('<');
    v.push('@');
    let mut digits = u64_to_dec(bot_id);
    v.append(&mut digits);
    v.push('>');
    v
}

/// Whether a message addresses the bot: its mention marker occurs in the
/// content.
pub fn mentions_bot(content: &str, bot_id: u64) -> (r: bool)
    ensures
        r == contains_seq(content@, "<@"@ + dec_str(bot_id) + ">"@),
{
    let chars = str_to_chars(content);
    let marker = mention_marker(bot_id);
    contains_chars(&chars, &marker)
}

} // verus!
