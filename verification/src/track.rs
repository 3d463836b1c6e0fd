//! Track requests and their metadata.
//!
//! A `TrackRequest` is one user-issued want-to-play item. Resolution happens
//! before a request is admitted anywhere: every `TrackRequest` carries an
//! already-resolved stream, identified to this crate by an opaque id that the
//! caller maps to the real audio stream.

use vstd::prelude::*;

verus! {

/// Metadata of a resolved track. Every field is optional; consumers render
/// defaults rather than fail when a source reports nothing.
#[derive(Debug)]
pub struct Metadata {
    pub title: Option<String>,
    pub artist: Option<String>,
    pub thumbnail_url: Option<String>,
    /// Duration in seconds; `None` for sources of unknown or unbounded
    /// length, e.g. livestreams.
    pub duration_secs: Option<u64>,
}

/// One user-issued request: the original locator plus the stream it resolved
/// to and whatever metadata resolution produced.
#[derive(Debug)]
pub struct TrackRequest {
    /// The user-supplied string (URL or search text) this request came from.
    pub locator: String,
    /// Opaque identifier of the resolved audio stream, assigned by the caller.
    pub stream_id: u64,
    pub metadata: Metadata,
}

/// The title shown for a playlist member that failed to resolve and is kept
/// only as a placeholder record.
pub fn placeholder_title() -> (r: String)
    ensures
        r@ == "<Unknown>"@,
{
    String::from_str("<Unknown>")
}

/// Title to display, with the documented default where the source gave none.
pub fn title_or_default(m: &Metadata) -> (r: String)
    ensures
        m.title is Some ==> r@ == m.title->0@,
        m.title is None ==> r@ == "Unknown Title"@,
{
    match &m.title {
        Some(t) => t.clone(),
        None => {
            let r = String::from_str("Unknown Title");
            r
        },
    }
}

/// Artist to display, with the documented default where the source gave none.
pub fn artist_or_default(m: &Metadata) -> (r: String)
    ensures
        m.artist is Some ==> r@ == m.artist->0@,
        m.artist is None ==> r@ == "Unknown Artist"@,
{
    match &m.artist {
        Some(a) => a.clone(),
        None => {
            let r = String::from_str("Unknown Artist");
            r
        },
    }
}

} // verus!
