use voicebot::resolver::AttemptOutcome;
use voicebot::resolver::LocatorClass;
use voicebot::resolver::RetryDecision;
use voicebot::resolver::attempt_decision;
use voicebot::resolver::canonicalize_locator;
use voicebot::resolver::classify;
use voicebot::resolver::is_access_denied;
use voicebot::resolver::resolve_from_attempts;
use voicebot::track::Metadata;
use voicebot::track::TrackRequest;

fn hit(stream_id: u64) -> AttemptOutcome {
    AttemptOutcome::Hit(TrackRequest {
        locator: "https://www.example.com/watch?v=abc".to_string(),
        stream_id,
        metadata: Metadata {
            title: Some("A Song".to_string()),
            artist: None,
            thumbnail_url: None,
            duration_secs: Some(180),
        },
    })
}

#[test]
fn classify_search_term() {
    assert_eq!(classify("rick astley never gonna give you up"), LocatorClass::SearchQuery);
}

#[test]
fn classify_playlist_link() {
    assert_eq!(
        classify("https://www.youtube.com/playlist?list=PL123"),
        LocatorClass::Playlist
    );
}

#[test]
fn classify_livestream_link() {
    assert_eq!(classify("https://www.youtube.com/live/xyz"), LocatorClass::Livestream);
}

#[test]
fn classify_direct_link() {
    assert_eq!(
        classify("https://www.youtube.com/watch?v=dQw4w9WgXcQ"),
        LocatorClass::DirectLink
    );
}

#[test]
fn classification_checks_scheme_before_markers() {
    // A search term that merely talks about a playlist is still a search.
    assert_eq!(classify("my favourite playlist live"), LocatorClass::SearchQuery);
}

#[test]
fn music_subdomain_is_rewritten_to_canonical_host() {
    let out = canonicalize_locator("https://music.youtube.com/watch?v=abc12345678");
    assert_eq!(out, "https://youtube.com/watch?v=abc12345678");
}

#[test]
fn rewrite_leaves_other_locators_alone() {
    assert_eq!(
        canonicalize_locator("https://www.youtube.com/watch?v=abc12345678"),
        "https://www.youtube.com/watch?v=abc12345678"
    );
    // No URL scheme: even a "music." occurrence is left untouched.
    assert_eq!(canonicalize_locator("music. the best of"), "music. the best of");
}

#[test]
fn denial_classification_matches_code_and_word() {
    assert!(is_access_denied("HTTP Error 403: Forbidden"));
    assert!(is_access_denied("status 403"));
    assert!(is_access_denied("Forbidden by upstream"));
    assert!(!is_access_denied("HTTP Error 404: Not Found"));
    assert!(!is_access_denied("network unreachable"));
}

#[test]
fn attempt_decision_cases() {
    assert_eq!(attempt_decision(&hit(1), true), RetryDecision::Accept);
    assert_eq!(
        attempt_decision(&AttemptOutcome::Miss("403".to_string()), true),
        RetryDecision::TryNextStrategy
    );
    assert_eq!(
        attempt_decision(&AttemptOutcome::Miss("403".to_string()), false),
        RetryDecision::GiveUp
    );
    assert_eq!(
        attempt_decision(&AttemptOutcome::Miss("404 not found".to_string()), true),
        RetryDecision::GiveUp
    );
}

#[test]
fn two_denials_then_success_resolves() {
    // A stub resolver that fails with 403 on its first two strategies and
    // succeeds on the third: resolution succeeds, and the caller sees the
    // same result a first-attempt success would have produced.
    let outcomes = vec![
        AttemptOutcome::Miss("HTTP Error 403: Forbidden".to_string()),
        AttemptOutcome::Miss("403".to_string()),
        hit(77),
    ];
    let direct = vec![hit(77)];
    let after_fallback = resolve_from_attempts("locator", outcomes).unwrap();
    let first_try = resolve_from_attempts("locator", direct).unwrap();
    assert_eq!(after_fallback.stream_id, first_try.stream_id);
    assert_eq!(after_fallback.locator, first_try.locator);
    assert_eq!(after_fallback.metadata.title, first_try.metadata.title);
}

#[test]
fn a_failure_that_is_no_denial_stops_the_run() {
    let outcomes = vec![
        AttemptOutcome::Miss("HTTP Error 403: Forbidden".to_string()),
        AttemptOutcome::Miss("video unavailable".to_string()),
        hit(5),
    ];
    let err = resolve_from_attempts("https://example.com/a", outcomes).unwrap_err();
    assert_eq!(err.locator, "https://example.com/a");
    assert_eq!(err.cause, "video unavailable");
}

#[test]
fn exhausting_every_strategy_reports_the_last_denial() {
    let outcomes = vec![
        AttemptOutcome::Miss("403".to_string()),
        AttemptOutcome::Miss("HTTP Error 403: Forbidden (final)".to_string()),
    ];
    let err = resolve_from_attempts("term", outcomes).unwrap_err();
    assert_eq!(err.locator, "term");
    assert_eq!(err.cause, "HTTP Error 403: Forbidden (final)");
}

#[test]
fn an_empty_run_fails() {
    let err = resolve_from_attempts("term", vec![]).unwrap_err();
    assert_eq!(err.locator, "term");
    assert_eq!(err.cause, "no resolution strategy attempted");
}

#[test]
fn rewrite_removes_only_the_leftmost_music_marker() {
    assert_eq!(
        canonicalize_locator("https://music.music.youtube.com/watch?v=a"),
        "https://music.youtube.com/watch?v=a"
    );
}

#[test]
fn playlist_marker_wins_over_livestream_marker() {
    assert_eq!(
        classify("https://www.youtube.com/playlist?list=live123"),
        LocatorClass::Playlist
    );
}
