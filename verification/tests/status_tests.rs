use posture_timer::state::{default_state, toggle, toggle_message, Mode, State};
use posture_timer::status::compute_status;

const NOW: i64 = 1_700_000_000;

#[test]
fn sitting_with_plenty_left() {
    let st = State { mode: Mode::Sitting, start_timestamp: NOW - 100 };
    let (out, notify) = compute_status(&st, NOW);
    assert_eq!(out.text, "\u{1FA91} 43 minutes");
    assert_eq!(out.class, "sitting normal");
    assert_eq!(
        out.tooltip,
        "Current: Sitting\n Target: 45 minutes\nElapsed: 1 minutes"
    );
    assert!(!notify);
}

#[test]
fn sitting_one_second_left_warns() {
    let st = State { mode: Mode::Sitting, start_timestamp: NOW - 2699 };
    let (out, notify) = compute_status(&st, NOW);
    assert_eq!(out.text, "\u{1FA91} 0 minutes");
    assert_eq!(out.class, "sitting warning");
    assert!(!notify);
}

#[test]
fn standing_one_second_over_alerts() {
    let st = State { mode: Mode::Standing, start_timestamp: NOW - 901 };
    let (out, notify) = compute_status(&st, NOW);
    assert_eq!(out.text, "\u{1F9CD} +0 minutes");
    assert_eq!(out.class, "standing critical");
    assert_eq!(
        out.tooltip,
        "Current: Standing\n Target: 15 minutes\nElapsed: 15 minutes"
    );
    assert!(notify);
}

#[test]
fn exactly_at_target_is_overdue_not_remaining() {
    let st = State { mode: Mode::Standing, start_timestamp: NOW - 900 };
    let (out, notify) = compute_status(&st, NOW);
    assert_eq!(out.text, "\u{1F9CD} +0 minutes");
    assert_eq!(out.class, "standing critical");
    assert!(!notify);
}

#[test]
fn notification_window_is_two_seconds_wide() {
    for overdue in [1i64, 2] {
        let st = State { mode: Mode::Sitting, start_timestamp: NOW - 2700 - overdue };
        let (_, notify) = compute_status(&st, NOW);
        assert!(notify, "expected an alert {overdue}s past the target");
    }
    for overdue in [0i64, 3, 4, 60, 3600] {
        let st = State { mode: Mode::Sitting, start_timestamp: NOW - 2700 - overdue };
        let (_, notify) = compute_status(&st, NOW);
        assert!(!notify, "no alert is due {overdue}s past the target");
    }
    let st = State { mode: Mode::Sitting, start_timestamp: NOW - 100 };
    let (_, notify) = compute_status(&st, NOW);
    assert!(!notify);
}

#[test]
fn same_inputs_same_output() {
    let st = State { mode: Mode::Standing, start_timestamp: NOW - 345 };
    let (a, na) = compute_status(&st, NOW);
    let (b, nb) = compute_status(&st, NOW);
    assert_eq!(a.text, b.text);
    assert_eq!(a.tooltip, b.tooltip);
    assert_eq!(a.class, b.class);
    assert_eq!(na, nb);
}

#[test]
fn fresh_default_state_shows_full_sitting_target() {
    let st = default_state(NOW);
    let (out, notify) = compute_status(&st, NOW);
    assert_eq!(out.text, "\u{1FA91} 45 minutes");
    assert_eq!(out.class, "sitting normal");
    assert!(!notify);
}

#[test]
fn toggling_from_sitting_starts_a_standing_interval() {
    let st = State { mode: Mode::Sitting, start_timestamp: NOW - 1234 };
    let st2 = toggle(&st, NOW);
    assert_eq!(st2.mode, Mode::Standing);
    assert_eq!(st2.start_timestamp, NOW);
    assert!(toggle_message(st2.mode).contains("15 minutes"));
    let (out, _) = compute_status(&st2, NOW);
    assert_eq!(out.text, "\u{1F9CD} 15 minutes");
    assert_eq!(out.class, "standing normal");
}

#[test]
fn warning_starts_under_two_minutes() {
    let st = State { mode: Mode::Sitting, start_timestamp: NOW - (2700 - 120) };
    let (out, _) = compute_status(&st, NOW);
    assert_eq!(out.text, "\u{1FA91} 2 minutes");
    assert_eq!(out.class, "sitting normal");
    let st = State { mode: Mode::Sitting, start_timestamp: NOW - (2700 - 119) };
    let (out, _) = compute_status(&st, NOW);
    assert_eq!(out.text, "\u{1FA91} 1 minutes");
    assert_eq!(out.class, "sitting warning");
}

#[test]
fn overdue_minutes_round_down() {
    let st = State { mode: Mode::Standing, start_timestamp: NOW - (900 + 119) };
    let (out, notify) = compute_status(&st, NOW);
    assert_eq!(out.text, "\u{1F9CD} +1 minutes");
    assert_eq!(out.class, "standing critical");
    assert!(!notify);
}
