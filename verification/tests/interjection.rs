use voicebot::interject::ClipOutcome;
use voicebot::interject::InterjectionRoute;
use voicebot::session::GuildSession;
use voicebot::session::PlayState;
use voicebot::session::TransportAction;
use voicebot::track::Metadata;
use voicebot::track::TrackRequest;

fn track(stream_id: u64) -> TrackRequest {
    TrackRequest {
        locator: "song".to_string(),
        stream_id,
        metadata: Metadata { title: None, artist: None, thumbnail_url: None, duration_secs: None },
    }
}

fn playing_session() -> GuildSession {
    let mut s = GuildSession::new(1);
    s.connect();
    s.enqueue(track(11));
    s.enqueue(track(12));
    s
}

#[test]
fn interjection_during_playing_ducks_and_restores() {
    let mut s = playing_session();
    let (route, mut job) = s.interjection_start();
    assert_eq!(route, InterjectionRoute::Voice(true));
    assert!(job.should_resume_after);
    assert_eq!(s.play_state, PlayState::Ducked);
    assert!(s.pending_resume);
    // The clip finished: the same current track resumes — a Resume, never a
    // fresh Start, so it continues at its paused position.
    let (cleanup, action) = s.interjection_complete(&mut job, ClipOutcome::Finished);
    assert!(cleanup);
    assert_eq!(action, TransportAction::Resume);
    assert_eq!(s.play_state, PlayState::Playing);
    assert_eq!(s.current.as_ref().unwrap().stream_id, 11);
    assert_eq!(s.queue.len(), 1);
    assert!(!s.pending_resume);
}

#[test]
fn interjection_during_paused_returns_to_paused() {
    let mut s = playing_session();
    s.pause();
    let (route, mut job) = s.interjection_start();
    assert_eq!(route, InterjectionRoute::Voice(false));
    assert!(!job.should_resume_after);
    assert_eq!(s.play_state, PlayState::Ducked);
    let (cleanup, action) = s.interjection_complete(&mut job, ClipOutcome::Finished);
    assert!(cleanup);
    assert_eq!(action, TransportAction::Stay);
    assert_eq!(s.play_state, PlayState::Paused);
    assert_eq!(s.current.as_ref().unwrap().stream_id, 11);
}

#[test]
fn interjection_without_voice_uses_fallback_and_changes_nothing() {
    let mut s = GuildSession::new(1);
    let (route, _job) = s.interjection_start();
    assert_eq!(route, InterjectionRoute::Fallback);
    assert_eq!(s.play_state, PlayState::Idle);
    assert!(s.current.is_none());
    assert!(!s.connected);
}

#[test]
fn interjection_while_connected_but_idle_plays_without_ducking() {
    let mut s = GuildSession::new(1);
    s.connect();
    let (route, mut job) = s.interjection_start();
    assert_eq!(route, InterjectionRoute::VoiceIdle);
    assert_eq!(s.play_state, PlayState::Idle);
    let (cleanup, action) = s.interjection_complete(&mut job, ClipOutcome::Finished);
    assert!(cleanup);
    assert_eq!(action, TransportAction::Stay);
    assert_eq!(s.play_state, PlayState::Idle);
}

#[test]
fn errored_clip_is_handled_like_a_finished_one() {
    let mut s = playing_session();
    let (_route, mut job) = s.interjection_start();
    let (cleanup, action) = s.interjection_complete(&mut job, ClipOutcome::Errored);
    assert!(cleanup);
    assert_eq!(action, TransportAction::Resume);
    assert_eq!(s.play_state, PlayState::Playing);
}

#[test]
fn cleanup_runs_exactly_once_across_double_notification() {
    // The transport registers the completion for both the end and the error
    // event; if both fire, only the first may clean up or transition.
    let mut s = playing_session();
    let (_route, mut job) = s.interjection_start();
    let (first_cleanup, first_action) = s.interjection_complete(&mut job, ClipOutcome::Finished);
    assert!(first_cleanup);
    assert_eq!(first_action, TransportAction::Resume);
    let state_after_first = s.play_state;
    let (second_cleanup, second_action) = s.interjection_complete(&mut job, ClipOutcome::Errored);
    assert!(!second_cleanup);
    assert_eq!(second_action, TransportAction::Stay);
    assert_eq!(s.play_state, state_after_first);
    assert_eq!(s.current.as_ref().unwrap().stream_id, 11);
}

#[test]
fn another_interjection_while_ducked_is_refused() {
    let mut s = playing_session();
    let (_route, _job) = s.interjection_start();
    let (route, _job2) = s.interjection_start();
    assert_eq!(route, InterjectionRoute::Busy);
    assert_eq!(s.play_state, PlayState::Ducked);
}
