use voicebot::events::CustomSongbirdEventHandler;
use voicebot::events::DriverEventContext;
use voicebot::events::mentions_bot;
use voicebot::interject::ClipOutcome;
use voicebot::signal::encode_restart_signal;
use voicebot::signal::parse_restart_signal;
use voicebot::signal::parse_u64_chars;
use voicebot::signal::u64_to_dec;

fn chars(s: &str) -> Vec<char> {
    s.chars().collect()
}

#[test]
fn decimal_formatting_is_canonical() {
    assert_eq!(u64_to_dec(0), chars("0"));
    assert_eq!(u64_to_dec(7), chars("7"));
    assert_eq!(u64_to_dec(42), chars("42"));
    assert_eq!(u64_to_dec(1000), chars("1000"));
    assert_eq!(u64_to_dec(u64::MAX), chars("18446744073709551615"));
}

#[test]
fn decimal_parsing_accepts_exactly_digit_strings() {
    assert_eq!(parse_u64_chars(&chars("0")), Some(0));
    assert_eq!(parse_u64_chars(&chars("0042")), Some(42));
    assert_eq!(parse_u64_chars(&chars("18446744073709551615")), Some(u64::MAX));
    assert_eq!(parse_u64_chars(&chars("")), None);
    assert_eq!(parse_u64_chars(&chars("12a3")), None);
    assert_eq!(parse_u64_chars(&chars("-5")), None);
    assert_eq!(parse_u64_chars(&chars(" 5")), None);
}

#[test]
fn decimal_parsing_rejects_overflow() {
    assert_eq!(parse_u64_chars(&chars("18446744073709551616")), None);
    assert_eq!(parse_u64_chars(&chars("99999999999999999999999")), None);
}

#[test]
fn restart_signal_is_two_lines() {
    let text = encode_restart_signal(717769413457215528, 112233445566778899);
    assert_eq!(text, "717769413457215528\n112233445566778899");
}

#[test]
fn restart_signal_round_trips() {
    for (c, m) in [(0u64, 0u64), (1, 2), (717769413457215528, 999), (u64::MAX, u64::MAX)] {
        let text = encode_restart_signal(c, m);
        assert_eq!(parse_restart_signal(&text), Some((c, m)));
    }
}

#[test]
fn restart_signal_parse_tolerates_a_trailing_line() {
    assert_eq!(parse_restart_signal("12\n34\n"), Some((12, 34)));
    assert_eq!(parse_restart_signal("12\n34\nleftover"), Some((12, 34)));
}

#[test]
fn restart_signal_parse_rejects_malformed_text() {
    assert_eq!(parse_restart_signal(""), None);
    assert_eq!(parse_restart_signal("12"), None);
    assert_eq!(parse_restart_signal("12\n"), None);
    assert_eq!(parse_restart_signal("twelve\n34"), None);
    assert_eq!(parse_restart_signal("12\nthirty"), None);
}

#[test]
fn mention_detection_uses_the_exact_marker() {
    let bot = 717769413457215528u64;
    assert!(mentions_bot("hey <@717769413457215528> play something", bot));
    assert!(!mentions_bot("hey <@717769413457215529> play something", bot));
    assert!(!mentions_bot("no mention here", bot));
    assert!(!mentions_bot("717769413457215528", bot));
}

#[test]
fn driver_handler_relays_only_core_events() {
    let h = CustomSongbirdEventHandler::new();
    assert_eq!(h.act(&DriverEventContext::Core(3)), Some(3));
    assert_eq!(h.act(&DriverEventContext::Track(ClipOutcome::Finished)), None);
    assert_eq!(h.act(&DriverEventContext::Track(ClipOutcome::Errored)), None);
}
