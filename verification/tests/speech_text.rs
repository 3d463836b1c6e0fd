use voicebot::command::BotError;
use voicebot::command::JoinPlan;
use voicebot::command::join_plan;
use voicebot::registry::Data;
use voicebot::registry::SessionRegistry;
use voicebot::session::PlayState;
use voicebot::speech::filter_emojis;
use voicebot::speech::is_emoji;
use voicebot::speech::prepare_tts_text;
use voicebot::speech::trim_chars;
use voicebot::speech::tts_config_path;

fn chars(s: &str) -> Vec<char> {
    s.chars().collect()
}

#[test]
fn emoji_detection_covers_the_stripped_blocks() {
    assert!(is_emoji('\u{1F600}'));
    assert!(is_emoji('\u{1F1E9}'));
    assert!(is_emoji('\u{2600}'));
    assert!(is_emoji('\u{27A1}'));
    assert!(is_emoji('\u{FE0F}'));
    assert!(!is_emoji('a'));
    assert!(!is_emoji('\u{E4}'));
    assert!(!is_emoji(' '));
}

#[test]
fn emoji_are_filtered_in_place() {
    let filtered = filter_emojis(&chars("hi \u{1F600}there\u{FE0F}!"));
    let text: String = filtered.into_iter().collect();
    assert_eq!(text, "hi there!");
}

#[test]
fn trimming_strips_both_ends_only() {
    let t = trim_chars(&chars("  hello there \n"));
    let text: String = t.into_iter().collect();
    assert_eq!(text, "hello there");
    assert!(trim_chars(&chars("   \n\t")).is_empty());
}

#[test]
fn tts_text_is_trimmed_and_emoji_free() {
    assert_eq!(prepare_tts_text("  hallo welt \u{1F600} "), Some("hallo welt".to_string()));
    assert_eq!(prepare_tts_text("read me"), Some("read me".to_string()));
}

#[test]
fn tts_text_with_nothing_to_say_is_rejected() {
    assert_eq!(prepare_tts_text(""), None);
    assert_eq!(prepare_tts_text("   "), None);
    assert_eq!(prepare_tts_text(" \u{1F600}\u{1F601} "), None);
    // Emoji surrounded by spaces leave only whitespace behind.
    assert_eq!(prepare_tts_text(" \u{1F600} \u{1F601} "), None);
}

#[test]
fn config_path_policy() {
    assert_eq!(tts_config_path("/abs/model.onnx.json"), "/abs/model.onnx.json");
    assert_eq!(tts_config_path("models/voice.onnx.json"), "models/voice.onnx.json");
    assert_eq!(tts_config_path("voice.onnx.json"), "models/voice.onnx.json");
}

#[test]
fn join_plan_prefers_existing_connection() {
    assert_eq!(join_plan(true, Some(5)), JoinPlan::AlreadyConnected);
    assert_eq!(join_plan(true, None), JoinPlan::AlreadyConnected);
    assert_eq!(join_plan(false, Some(5)), JoinPlan::Connect(5));
    assert_eq!(join_plan(false, None), JoinPlan::NoVoiceChannel);
}

#[test]
fn error_headlines_are_fixed() {
    assert_eq!(BotError::NotConnected.headline(), "Not in a voice channel.");
    assert_eq!(BotError::JoinDenied.headline(), "Error joining channel.");
    assert_eq!(BotError::TransportTimeout.headline(), "The voice transport timed out.");
}

#[test]
fn registry_creates_takes_and_restores_sessions() {
    let mut reg = SessionRegistry::new();
    assert_eq!(reg.len(), 0);
    let mut s = reg.get_or_create(10);
    assert_eq!(s.guild_id, 10);
    assert_eq!(s.play_state, PlayState::Idle);
    s.connect();
    reg.put_back(s);
    assert_eq!(reg.len(), 1);
    // Taking it again returns the same session, connection intact.
    let s = reg.get_or_create(10);
    assert!(s.connected);
    reg.put_back(s);
    // A different guild gets a fresh session.
    let other = reg.get_or_create(11);
    assert!(!other.connected);
    reg.put_back(other);
    assert_eq!(reg.len(), 2);
}

#[test]
fn registry_remove_is_idempotent_and_safe_when_absent() {
    let mut reg = SessionRegistry::new();
    assert!(reg.remove(10).is_none());
    let s = reg.get_or_create(10);
    reg.put_back(s);
    let removed = reg.remove(10);
    assert_eq!(removed.unwrap().guild_id, 10);
    assert!(reg.remove(10).is_none());
    assert_eq!(reg.len(), 0);
}

#[test]
fn data_roots_an_empty_registry() {
    let d = Data::new();
    assert_eq!(d.registry.len(), 0);
}

#[test]
fn synthesizer_loads_exactly_once() {
    let mut synth = voicebot::speech::SynthesizerHandle::new();
    assert!(synth.begin_use());
    assert!(!synth.begin_use());
    assert!(!synth.begin_use());
}
