use posture_timer::state::{
    alert_message, default_state, toggle, toggle_message, Mode, State,
};

#[test]
fn toggle_flips_mode_and_resets_start() {
    let st = State { mode: Mode::Sitting, start_timestamp: 1000 };
    let st2 = toggle(&st, 5000);
    assert_eq!(st2.mode, Mode::Standing);
    assert_eq!(st2.start_timestamp, 5000);
}

#[test]
fn toggle_twice_restores_mode() {
    let st = State { mode: Mode::Standing, start_timestamp: 42 };
    let st2 = toggle(&toggle(&st, 100), 200);
    assert_eq!(st2.mode, Mode::Standing);
    assert_eq!(st2.start_timestamp, 200);
}

#[test]
fn default_state_is_sitting_now() {
    let st = default_state(777);
    assert_eq!(st.mode, Mode::Sitting);
    assert_eq!(st.start_timestamp, 777);
}

#[test]
fn mode_attributes() {
    assert_eq!(Mode::Sitting.target_minutes(), 45);
    assert_eq!(Mode::Standing.target_minutes(), 15);
    assert_eq!(Mode::Sitting.label(), "Sitting");
    assert_eq!(Mode::Standing.label(), "Standing");
    assert_eq!(Mode::Sitting.lower_label(), "sitting");
    assert_eq!(Mode::Standing.lower_label(), "standing");
    assert_eq!(Mode::Sitting.icon(), "\u{1FA91}");
    assert_eq!(Mode::Standing.icon(), "\u{1F9CD}");
}

#[test]
fn toggle_messages_name_the_new_target() {
    assert_eq!(toggle_message(Mode::Sitting), "Time to sit down (45 minutes)");
    assert_eq!(toggle_message(Mode::Standing), "Time to stand up (15 minutes)");
}

#[test]
fn alert_messages_name_the_mode() {
    assert_eq!(alert_message(Mode::Sitting), "Sitting limit reached. Switch position now!");
    assert_eq!(
        alert_message(Mode::Standing),
        "Standing limit reached. Switch position now!"
    );
}
