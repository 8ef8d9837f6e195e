use posture_timer::codec::{parse_state_json, render_state_json, render_status_json};
use posture_timer::digits::{i64_to_string, u64_to_string};
use posture_timer::state::{Mode, State};
use posture_timer::status::{compute_status, StatusOutput};
use posture_timer::store::load_state;

#[test]
fn digits_render_exactly() {
    assert_eq!(u64_to_string(0), "0");
    assert_eq!(u64_to_string(7), "7");
    assert_eq!(u64_to_string(45), "45");
    assert_eq!(u64_to_string(12345), "12345");
    assert_eq!(u64_to_string(u64::MAX), "18446744073709551615");
    assert_eq!(i64_to_string(0), "0");
    assert_eq!(i64_to_string(-1), "-1");
    assert_eq!(i64_to_string(1_700_000_000), "1700000000");
    assert_eq!(i64_to_string(i64::MIN), "-9223372036854775808");
    assert_eq!(i64_to_string(i64::MAX), "9223372036854775807");
}

#[test]
fn state_renders_as_json_object() {
    let st = State { mode: Mode::Sitting, start_timestamp: 123 };
    assert_eq!(
        render_state_json(&st),
        "{\"mode\":\"Sitting\",\"start_timestamp\":123}"
    );
    let st = State { mode: Mode::Standing, start_timestamp: -5 };
    assert_eq!(
        render_state_json(&st),
        "{\"mode\":\"Standing\",\"start_timestamp\":-5}"
    );
}

#[test]
fn state_json_round_trips() {
    for ts in [0i64, 1, -1, 123, -123, 1_700_000_000, i64::MAX, i64::MIN] {
        for mode in [Mode::Sitting, Mode::Standing] {
            let st = State { mode, start_timestamp: ts };
            let rendered = render_state_json(&st);
            assert_eq!(parse_state_json(&rendered), Some(st), "round trip of {rendered}");
        }
    }
}

#[test]
fn parse_accepts_only_canonical_renderings() {
    assert_eq!(
        parse_state_json("{\"mode\":\"Sitting\",\"start_timestamp\":0}"),
        Some(State { mode: Mode::Sitting, start_timestamp: 0 })
    );
    assert_eq!(
        parse_state_json("{\"mode\":\"Standing\",\"start_timestamp\":-42}"),
        Some(State { mode: Mode::Standing, start_timestamp: -42 })
    );
}

#[test]
fn parse_rejects_corrupt_input() {
    assert_eq!(parse_state_json(""), None);
    assert_eq!(parse_state_json("{}"), None);
    assert_eq!(parse_state_json("not json at all"), None);
    assert_eq!(parse_state_json("{\"mode\":\"Sitting\"}"), None);
    assert_eq!(parse_state_json("{\"mode\":\"Kneeling\",\"start_timestamp\":0}"), None);
    assert_eq!(parse_state_json("{\"mode\":\"Sitting\",\"start_timestamp\":}"), None);
    assert_eq!(parse_state_json("{\"mode\":\"Sitting\",\"start_timestamp\":007}"), None);
    assert_eq!(parse_state_json("{\"mode\":\"Sitting\",\"start_timestamp\":-0}"), None);
    assert_eq!(parse_state_json("{\"mode\":\"Sitting\",\"start_timestamp\":1x}"), None);
    assert_eq!(parse_state_json("{\"mode\":\"Sitting\",\"start_timestamp\": 1}"), None);
    assert_eq!(parse_state_json("{\"mode\":\"Sitting\",\"start_timestamp\":1} "), None);
    // one past either end of the i64 range
    assert_eq!(
        parse_state_json("{\"mode\":\"Sitting\",\"start_timestamp\":9223372036854775808}"),
        None
    );
    assert_eq!(
        parse_state_json("{\"mode\":\"Sitting\",\"start_timestamp\":-9223372036854775809}"),
        None
    );
}

#[test]
fn status_line_matches_widget_protocol() {
    let st = State { mode: Mode::Sitting, start_timestamp: 1_700_000_000 - 100 };
    let (out, _) = compute_status(&st, 1_700_000_000);
    assert_eq!(
        render_status_json(&out),
        "{\"text\":\"\u{1FA91} 43 minutes\",\"tooltip\":\"Current: Sitting\\n Target: 45 minutes\\nElapsed: 1 minutes\",\"class\":\"sitting normal\"}"
    );
}

#[test]
fn status_json_escapes_special_characters() {
    let out = StatusOutput {
        text: String::from("a\"b\\c"),
        tooltip: String::from("line1\nline2\ttabbed\rreturn"),
        class: String::from("\u{8}\u{c}\u{1}\u{1f}"),
    };
    assert_eq!(
        render_status_json(&out),
        "{\"text\":\"a\\\"b\\\\c\",\"tooltip\":\"line1\\nline2\\ttabbed\\rreturn\",\"class\":\"\\b\\f\\u0001\\u001f\"}"
    );
}

#[test]
fn load_returns_saved_state() {
    let st = State { mode: Mode::Standing, start_timestamp: 987654321 };
    let contents = render_state_json(&st);
    assert_eq!(load_state(Some(&contents)), st);
}

#[test]
fn load_falls_back_to_sitting_now() {
    let before = unix_now();
    let fresh = load_state(None);
    let after = unix_now();
    assert_eq!(fresh.mode, Mode::Sitting);
    assert!(fresh.start_timestamp >= before && fresh.start_timestamp <= after + 1);

    let corrupt = String::from("{\"mode\":\"Sitting\",");
    let recovered = load_state(Some(&corrupt));
    assert_eq!(recovered.mode, Mode::Sitting);
    assert!(recovered.start_timestamp >= before);
}

fn unix_now() -> i64 {
    std::time::SystemTime::now()
        .duration_since(std::time::UNIX_EPOCH)
        .unwrap()
        .as_secs() as i64
}
