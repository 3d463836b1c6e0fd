use voicebot::listing::extract_playlist_urls;
use voicebot::resolver::MemberOutcome;
use voicebot::resolver::ResolutionFailure;
use voicebot::resolver::admit_playlist;
use voicebot::session::GuildSession;
use voicebot::session::PlayState;
use voicebot::track::Metadata;
use voicebot::track::TrackRequest;
use voicebot::track::placeholder_title;
use voicebot::track::title_or_default;

fn resolved(stream_id: u64) -> MemberOutcome {
    MemberOutcome::Resolved(TrackRequest {
        locator: format!("member{}", stream_id),
        stream_id,
        metadata: Metadata { title: None, artist: None, thumbnail_url: None, duration_secs: None },
    })
}

fn failed(locator: &str, cause: &str) -> MemberOutcome {
    MemberOutcome::Failed(ResolutionFailure {
        locator: locator.to_string(),
        cause: cause.to_string(),
    })
}

#[test]
fn playlist_with_one_failing_member_keeps_the_rest() {
    // Five members, the third fails: four tracks end up queued or playing,
    // one failure record is kept, and the members after the failure are
    // still processed.
    let mut s = GuildSession::new(1);
    s.connect();
    let members = vec![
        resolved(1),
        resolved(2),
        failed("member3", "HTTP Error 403: Forbidden"),
        resolved(4),
        resolved(5),
    ];
    let report = admit_playlist(&mut s, members);
    assert_eq!(report.started, Some(1));
    assert_eq!(s.play_state, PlayState::Playing);
    assert_eq!(s.current.as_ref().unwrap().stream_id, 1);
    let pending: Vec<u64> = s.queue.peek_all().iter().map(|t| t.stream_id).collect();
    assert_eq!(pending, vec![2, 4, 5]);
    assert_eq!(report.failures.len(), 1);
    assert_eq!(report.failures[0].locator, "member3");
    assert_eq!(report.failures[0].cause, "HTTP Error 403: Forbidden");
}

#[test]
fn playlist_into_a_busy_session_only_appends() {
    let mut s = GuildSession::new(1);
    s.connect();
    s.enqueue(TrackRequest {
        locator: "earlier".to_string(),
        stream_id: 100,
        metadata: Metadata { title: None, artist: None, thumbnail_url: None, duration_secs: None },
    });
    let report = admit_playlist(&mut s, vec![resolved(1), resolved(2)]);
    assert_eq!(report.started, None);
    assert_eq!(s.current.as_ref().unwrap().stream_id, 100);
    let pending: Vec<u64> = s.queue.peek_all().iter().map(|t| t.stream_id).collect();
    assert_eq!(pending, vec![1, 2]);
}

#[test]
fn playlist_of_failures_starts_nothing() {
    let mut s = GuildSession::new(1);
    s.connect();
    let report = admit_playlist(&mut s, vec![failed("a", "403"), failed("b", "403")]);
    assert_eq!(report.started, None);
    assert_eq!(s.play_state, PlayState::Idle);
    assert_eq!(report.failures.len(), 2);
}

#[test]
fn placeholder_metadata_for_failure_records() {
    assert_eq!(placeholder_title(), "<Unknown>");
    let bare = Metadata { title: None, artist: None, thumbnail_url: None, duration_secs: None };
    assert_eq!(title_or_default(&bare), "Unknown Title");
}

#[test]
fn listing_urls_are_extracted_in_order() {
    let listing = "{\"id\": \"x\", \"url\": \"https://www.youtube.com/watch?v=abcDEF12345\", \"n\": 1}\n{\"id\": \"y\", \"url\": \"https://www.youtube.com/watch?v=ZYXwvu98765\", \"n\": 2}\n";
    let urls = extract_playlist_urls(listing);
    assert_eq!(
        urls,
        vec![
            "https://www.youtube.com/watch?v=abcDEF12345".to_string(),
            "https://www.youtube.com/watch?v=ZYXwvu98765".to_string(),
        ]
    );
}

#[test]
fn listing_entries_with_malformed_ids_are_not_extracted() {
    // The first id is ten characters, the second has a punctuation mark:
    // neither is a well-formed watch id.
    let listing = "\"url\": \"https://www.youtube.com/watch?v=short12345\"\n\"url\": \"https://www.youtube.com/watch?v=bad-char123\"\n\"url\": \"https://www.youtube.com/watch?v=good1234567\"\n";
    let urls = extract_playlist_urls(listing);
    assert_eq!(urls, vec!["https://www.youtube.com/watch?v=good1234567".to_string()]);
}

#[test]
fn listing_without_member_urls_yields_nothing() {
    assert!(extract_playlist_urls("").is_empty());
    assert!(extract_playlist_urls("{\"error\": \"private playlist\"}").is_empty());
}
