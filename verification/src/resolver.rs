//! Locator classification and the resolution policy.
//!
//! The actual resolver (a media downloader, an HTTP client) lives outside
//! this crate: the caller performs each resolution attempt and hands the
//! outcome back. This module decides everything around those attempts —
//! which kind of locator it is, which locator to resolve, whether a failure
//! is worth another client-identity strategy, and how a playlist's member
//! outcomes are admitted into a session.

use vstd::prelude::*;

use crate::session::GuildSession;
use crate::session::enqueue_all;
use crate::textscan::contains_chars;
use crate::textscan::contains_seq;
use crate::textscan::find_first;
use crate::textscan::match_at;
use crate::textscan::starts_with_chars;
use crate::textscan::starts_with_seq;
use crate::textscan::str_to_chars;
use crate::textscan::chars_to_string;
use crate::track::TrackRequest;

verus! {

/// What kind of locator the user supplied, decided in this order: no URL
/// scheme means a search, then a playlist marker, then a livestream marker,
/// and anything else is a direct link.
#[derive(Clone, Copy, PartialEq, Eq, Structural, Debug)]
pub enum LocatorClass {
    SearchQuery,
    Playlist,
    Livestream,
    DirectLink,
}

/// The classification policy over the locator's characters.
pub open spec fn classify_spec(s: Seq<char>) -> LocatorClass {
    if !starts_with_seq(s, "http"@) {
        LocatorClass::SearchQuery
    } else if contains_seq(s, "playlist"@) {
        LocatorClass::Playlist
    } else if contains_seq(s, "live"@) {
        LocatorClass::Livestream
    } else {
        LocatorClass::DirectLink
    }
}

/// Classify a locator.
pub fn classify(locator: &str) -> (r: LocatorClass)
    ensures
        r == classify_spec(locator@),
{
    let chars = str_to_chars(locator);
    let scheme = str_to_chars("http");
    if !starts_with_chars(&chars, &scheme) {
        return LocatorClass::SearchQuery;
    }
    let playlist_marker = str_to_chars("playlist");
    if contains_chars(&chars, &playlist_marker) {
        return LocatorClass::Playlist;
    }
    let live_marker = str_to_chars("live");
    if contains_chars(&chars, &live_marker) {
        return LocatorClass::Livestream;
    }
    LocatorClass::DirectLink
}

/// `s` with the leftmost occurrence of `p` removed; `s` itself when `p`
/// does not occur.
pub open spec fn remove_first(s: Seq<char>, p: Seq<char>) -> Seq<char>
    decreases s.len(),
{
    if starts_with_seq(s, p) {
        s.skip(p.len() as int)
    } else if s.len() == 0 {
        s
    } else {
        seq![s[0]] + remove_first(s.drop_first(), p)
    }
}

/// An occurrence one step into the text is an occurrence one position later
/// in the whole text.
proof fn lemma_match_shift(s: Seq<char>, p: Seq<char>, k: int)
    requires
        s.len() >= 1,
        0 <= k,
    ensures
        match_at(s.drop_first(), p, k) == match_at(s, p, k + 1),
{
    if k + 1 + p.len() <= s.len() {
        assert(s.drop_first().subrange(k, k + p.len() as int) =~= s.subrange(
            k + 1,
            k + 1 + p.len(),
        ));
    }
}

/// Where the leftmost occurrence of `p` sits, removing it splits the text
/// around it.
proof fn lemma_remove_first_at(s: Seq<char>, p: Seq<char>, i: int)
    requires
        p.len() >= 1,
        match_at(s, p, i),
        forall|k: int| 0 <= k < i ==> !match_at(s, p, k),
    ensures
        remove_first(s, p) =~= s.subrange(0, i) + s.subrange(
            i + p.len(),
            s.len() as int,
        ),
    decreases i,
{
    if i == 0 {
        assert(remove_first(s, p) == s.skip(p.len() as int));
        assert(s.skip(p.len() as int) =~= s.subrange(0, 0) + s.subrange(
            p.len() as int,
            s.len() as int,
        ));
    } else {
        assert(!match_at(s, p, 0));
        assert(!starts_with_seq(s, p));
        let t = s.drop_first();
        lemma_match_shift(s, p, i - 1);
        assert(match_at(t, p, i - 1));
        assert forall|k: int| 0 <= k < i - 1 implies !match_at(t, p, k) by {
            lemma_match_shift(s, p, k);
        }
        lemma_remove_first_at(t, p, i - 1);
        assert(seq![s[0]] + (t.subrange(0, i - 1) + t.subrange(i - 1 + p.len(), t.len() as int))
            =~= s.subrange(0, i) + s.subrange(i + p.len(), s.len() as int));
    }
}

/// No occurrence, nothing removed.
proof fn lemma_remove_first_absent(s: Seq<char>, p: Seq<char>)
    requires
        p.len() >= 1,
        !contains_seq(s, p),
    ensures
        remove_first(s, p) =~= s,
    decreases s.len(),
{
    assert(!match_at(s, p, 0));
    if s.len() > 0 {
        let t = s.drop_first();
        assert forall|k: int| 0 <= k implies !match_at(t, p, k) by {
            lemma_match_shift(s, p, k);
        }
        assert(!contains_seq(t, p)) by {
            if contains_seq(t, p) {
                let k = choose|k: int| match_at(t, p, k);
                assert(!match_at(t, p, k));
            }
        }
        lemma_remove_first_absent(t, p);
        assert(seq![s[0]] + t =~= s);
    }
}

/// Links on a music subdomain of a video host are rewritten to the canonical
/// host before resolution: the leftmost `"music."` is removed from a locator
/// that carries a URL scheme. Anything else is returned unchanged.
pub fn canonicalize_locator(locator: &str) -> (r: String)
    ensures
        starts_with_seq(locator@, "http"@) ==> r@ =~= remove_first(locator@, "music."@),
        !starts_with_seq(locator@, "http"@) ==> r@ == locator@,
{
    let chars = str_to_chars(locator);
    let scheme = str_to_chars("http");
    if !starts_with_chars(&chars, &scheme) {
        return locator.to_owned();
    }
    let marker = str_to_chars("music.");
    proof {
        reveal_strlit("music.");
    }
    match find_first(&chars, &marker) {
        None => {
            proof {
                lemma_remove_first_absent(locator@, "music."@);
            }
            locator.to_owned()
        },
        Some(i) => {
            let mut out: Vec<char> = Vec::new();
            let mut k: usize = 0;
            while k < i
                invariant
                    i + 6 <= chars@.len(),
                    k <= i,
                    out@ == chars@.subrange(0, k as int),
                decreases i - k,
            {
                out.push(chars[k]);
                proof {
                    assert(out@ =~= chars@.subrange(0, k + 1));
                }
                k = k + 1;
            }
            let n = chars.len();
            let mut m: usize = i + 6;
            while m < n
                invariant
                    i + 6 <= m <= n,
                    n == chars@.len(),
                    out@ == chars@.subrange(0, i as int) + chars@.subrange(i + 6, m as int),
                decreases n - m,
            {
                out.push(chars[m]);
                proof {
                    assert(out@ =~= chars@.subrange(0, i as int) + chars@.subrange(
                        i + 6,
                        m + 1,
                    ));
                }
                m = m + 1;
            }
            proof {
                lemma_remove_first_at(locator@, "music."@, i as int);
            }
            chars_to_string(&out)
        },
    }
}

/// A failure classified as an access denial — an HTTP 403 or an equivalent
/// upstream block — is the kind worth retrying under another client
/// identity.
pub open spec fn is_denial(s: Seq<char>) -> bool {
    contains_seq(s, "403"@) || contains_seq(s, "Forbidden"@)
}

/// Whether a resolution failure message reports an access denial.
pub fn is_access_denied(cause: &str) -> (r: bool)
    ensures
        r == is_denial(cause@),
{
    let chars = str_to_chars(cause);
    let code = str_to_chars("403");
    if contains_chars(&chars, &code) {
        return true;
    }
    let word = str_to_chars("Forbidden");
    contains_chars(&chars, &word)
}

/// A locator that could not be turned into a stream, with the cause.
#[derive(Debug)]
pub struct ResolutionFailure {
    pub locator: String,
    pub cause: String,
}

/// One resolution attempt as the caller saw it.
pub enum AttemptOutcome {
    /// The attempt produced a playable track.
    Hit(TrackRequest),
    /// The attempt failed; the message is the upstream error text.
    Miss(String),
}

/// What to do after one attempt.
#[derive(Clone, Copy, PartialEq, Eq, Structural, Debug)]
pub enum RetryDecision {
    /// Use this track; resolution is done.
    Accept,
    /// The failure was an access denial and another client-identity strategy
    /// remains: try it, starting fresh.
    TryNextStrategy,
    /// Give up and surface the failure.
    GiveUp,
}

/// The per-attempt retry policy: a success is accepted; an access denial is
/// retried while another strategy remains; any other failure — or a denial
/// with nothing left to try — gives up.
pub fn attempt_decision(outcome: &AttemptOutcome, strategies_left: bool) -> (r: RetryDecision)
    ensures
        outcome matches AttemptOutcome::Hit(_) ==> r == RetryDecision::Accept,
        outcome matches AttemptOutcome::Miss(m) ==> r == (if is_denial(m@) && strategies_left {
            RetryDecision::TryNextStrategy
        } else {
            RetryDecision::GiveUp
        }),
{
    match outcome {
        AttemptOutcome::Hit(_) => RetryDecision::Accept,
        AttemptOutcome::Miss(m) => {
            if is_access_denied(m.as_str()) && strategies_left {
                RetryDecision::TryNextStrategy
            } else {
                RetryDecision::GiveUp
            }
        },
    }
}

/// The retry policy folded over a whole run of attempts: the first success
/// is the result — indistinguishable from a first-attempt success — earlier
/// denials are stepped over, a failure that is no denial stops the run, and
/// an exhausted run keeps the cause of its last denial.
pub open spec fn resolve_run_spec(outs: Seq<AttemptOutcome>, last_cause: Seq<char>) -> Result<
    TrackRequest,
    Seq<char>,
>
    decreases outs.len(),
{
    if outs.len() == 0 {
        Err(last_cause)
    } else {
        match outs[0] {
            AttemptOutcome::Hit(t) => Ok(t),
            AttemptOutcome::Miss(m) => if is_denial(m@) {
                resolve_run_spec(outs.drop_first(), m@)
            } else {
                Err(m@)
            },
        }
    }
}

/// Resolve a locator from the recorded outcomes of its strategy attempts, in
/// the order they were tried. Exhausting every strategy surfaces a typed
/// failure carrying the locator and a human-readable cause.
#[verifier::loop_isolation(false)]
pub fn resolve_from_attempts(locator: &str, outcomes: Vec<AttemptOutcome>) -> (r: Result<
    TrackRequest,
    ResolutionFailure,
>)
    ensures
        ({
            let expected = resolve_run_spec(outcomes@, "no resolution strategy attempted"@);
            match expected {
                Ok(t) => r == Ok::<TrackRequest, ResolutionFailure>(t),
                Err(c) => r matches Err(f) && f.cause@ == c && f.locator@ == locator@,
            }
        }),
{
    proof {
        reveal_strlit("no resolution strategy attempted");
    }
    let ghost orig = outcomes@;
    let mut rest = outcomes;
    let mut cause = String::from_str("no resolution strategy attempted");
    let ghost init_cause = cause@;
    while rest.len() > 0
        invariant
            resolve_run_spec(rest@, cause@) == resolve_run_spec(orig, init_cause),
        decreases rest@.len(),
    {
        let ghost prev = rest@;
        let o = rest.remove(0);
        proof {
            assert(rest@ =~= prev.drop_first());
        }
        match o {
            AttemptOutcome::Hit(t) => {
                proof {
                    assert(resolve_run_spec(prev, cause@) == Ok::<TrackRequest, Seq<char>>(t));
                    assert(resolve_run_spec(orig, init_cause) == Ok::<TrackRequest, Seq<char>>(
                        t,
                    ));
                    assert(init_cause == "no resolution strategy attempted"@);
                    assert(orig == outcomes@);
                }
                return Ok(t);
            },
            AttemptOutcome::Miss(m) => {
                if is_access_denied(m.as_str()) {
                    proof {
                        assert(resolve_run_spec(prev, cause@) == resolve_run_spec(rest@, m@));
                    }
                    cause = m;
                } else {
                    proof {
                        assert(resolve_run_spec(prev, cause@) == Err::<TrackRequest, Seq<char>>(
                            m@,
                        ));
                    }
                    return Err(ResolutionFailure { locator: locator.to_owned(), cause: m });
                }
            },
        }
    }
    Err(ResolutionFailure { locator: locator.to_owned(), cause })
}

/// The outcome of resolving one playlist member.
pub enum MemberOutcome {
    /// The member resolved; the track is ready to queue.
    Resolved(TrackRequest),
    /// The member failed; the failure is recorded, never silently dropped.
    Failed(ResolutionFailure),
}

/// The tracks of the members that resolved, in playlist order.
pub open spec fn resolved_of(ms: Seq<MemberOutcome>) -> Seq<TrackRequest>
    decreases ms.len(),
{
    if ms.len() == 0 {
        Seq::empty()
    } else {
        match ms[0] {
            MemberOutcome::Resolved(t) => seq![t] + resolved_of(ms.drop_first()),
            MemberOutcome::Failed(_) => resolved_of(ms.drop_first()),
        }
    }
}

/// The failure records of the members that did not resolve, in order.
pub open spec fn failures_of(ms: Seq<MemberOutcome>) -> Seq<ResolutionFailure>
    decreases ms.len(),
{
    if ms.len() == 0 {
        Seq::empty()
    } else {
        match ms[0] {
            MemberOutcome::Resolved(_) => failures_of(ms.drop_first()),
            MemberOutcome::Failed(f) => seq![f] + failures_of(ms.drop_first()),
        }
    }
}

/// Every member is either admitted or recorded as failed.
pub proof fn lemma_playlist_accounts_for_all(ms: Seq<MemberOutcome>)
    ensures
        resolved_of(ms).len() + failures_of(ms).len() == ms.len(),
    decreases ms.len(),
{
    if ms.len() > 0 {
        lemma_playlist_accounts_for_all(ms.drop_first());
    }
}

/// What admitting a playlist reports back.
pub struct PlaylistReport {
    /// The stream the session auto-started, when it was idle and at least
    /// one member resolved.
    pub started: Option<u64>,
    /// One record per member that failed resolution.
    pub failures: Vec<ResolutionFailure>,
}

/// Admit the outcomes of a playlist's members, in order: each resolved track
/// is enqueued — the first one auto-starts an idle session — and each
/// failure is recorded and carried past; a failed member never aborts the
/// rest.
#[verifier::loop_isolation(false)]
pub fn admit_playlist(session: &mut GuildSession, members: Vec<MemberOutcome>) -> (report:
    PlaylistReport)
    requires
        old(session).wf(),
        old(session)@.connected,
    ensures
        final(session).wf(),
        final(session)@ =~= enqueue_all(old(session)@, resolved_of(members@)),
        final(session).guild_id == old(session).guild_id,
        report.failures@ == failures_of(members@),
        report.started == (if old(session)@.play_state is Idle && resolved_of(members@).len()
            > 0 {
            Some(resolved_of(members@)[0].stream_id)
        } else {
            Option::<u64>::None
        }),
{
    let ghost v0 = old(session)@;
    let ghost all = members@;
    let mut rest = members;
    let mut failures: Vec<ResolutionFailure> = Vec::new();
    let mut started: Option<u64> = None;
    while rest.len() > 0
        invariant
            session.wf(),
            session@.connected,
            session.guild_id == old(session).guild_id,
            enqueue_all(session@, resolved_of(rest@)) == enqueue_all(v0, resolved_of(all)),
            failures@ + failures_of(rest@) =~= failures_of(all),
            !(v0.play_state is Idle) ==> started is None && !(session@.play_state is Idle),
            v0.play_state is Idle ==> match started {
                None => session@ =~= v0 && (if v0.play_state is Idle && resolved_of(all).len()
                    > 0 {
                    Some(resolved_of(all)[0].stream_id)
                } else {
                    Option::<u64>::None
                }) == (if resolved_of(rest@).len() > 0 {
                    Some(resolved_of(rest@)[0].stream_id)
                } else {
                    Option::<u64>::None
                }),
                Some(id) => !(session@.play_state is Idle) && (if v0.play_state is Idle
                    && resolved_of(all).len() > 0 {
                    Some(resolved_of(all)[0].stream_id)
                } else {
                    Option::<u64>::None
                }) == Some(id),
            },
        decreases rest@.len(),
    {
        let ghost prev = rest@;
        let m = rest.remove(0);
        proof {
            assert(rest@ =~= prev.drop_first());
        }
        match m {
            MemberOutcome::Resolved(t) => {
                let ghost before = session@;
                let action = session.enqueue(t);
                proof {
                    assert(resolved_of(prev) =~= seq![t] + resolved_of(rest@));
                    assert(resolved_of(prev)[0] == t);
                    assert(resolved_of(prev).drop_first() =~= resolved_of(rest@));
                    assert(enqueue_all(before, resolved_of(prev)) == enqueue_all(
                        session@,
                        resolved_of(rest@),
                    ));
                }
                if let crate::session::TransportAction::Start(id) = action {
                    started = Some(id);
                }
            },
            MemberOutcome::Failed(f) => {
                failures.push(f);
                proof {
                    assert(failures_of(prev) =~= seq![f] + failures_of(rest@));
                    assert(failures@ + failures_of(rest@) =~= failures_of(all));
                }
            },
        }
    }
    proof {
        assert(resolved_of(rest@) =~= Seq::<TrackRequest>::empty());
        assert(enqueue_all(session@, resolved_of(rest@)) == session@);
        assert(failures@ + failures_of(rest@) =~= failures@);
        assert(failures@ =~= failures_of(all));
    }
    PlaylistReport { started, failures }
}

} // verus!
