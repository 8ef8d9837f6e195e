use vstd::prelude::*;
use vstd::string::StringExecFns;

use crate::digits::{spec_udigits, u64_to_string};
use crate::state::{spec_icon, spec_label, spec_lower_label, spec_target_minutes, Mode, State};

verus! {

/// What one invocation shows in the status bar.
pub struct StatusOutput {
    pub text: String,
    pub tooltip: String,
    pub class: String,
}

/// Seconds spent in the current interval.
pub open spec fn spec_elapsed(st: State, now: i64) -> int {
    now - st.start_timestamp
}

/// Seconds left until the current interval's target; negative once overdue.
pub open spec fn spec_remaining(st: State, now: i64) -> int {
    spec_target_minutes(st.mode) * 60 - spec_elapsed(st, now)
}

/// Whole minutes the interval is past its target.
pub open spec fn spec_overdue_minutes(st: State, now: i64) -> int {
    (spec_elapsed(st, now) - spec_target_minutes(st.mode) * 60) / 60
}

/// The alert fires exactly in the one-second edge window right after the
/// target is crossed: one or two seconds overdue.
pub open spec fn spec_notify(st: State, now: i64) -> bool {
    spec_remaining(st, now) == -1 || spec_remaining(st, now) == -2
}

/// Style word: "normal" with time to spare, "warning" under two minutes left,
/// "critical" once the target is reached.
pub open spec fn spec_class_word(st: State, now: i64) -> Seq<char> {
    if spec_remaining(st, now) > 0 {
        if spec_remaining(st, now) / 60 < 2 {
            "warning"@
        } else {
            "normal"@
        }
    } else {
        "critical"@
    }
}

/// Style class: the lower-case mode label followed by the style word.
pub open spec fn spec_class(st: State, now: i64) -> Seq<char> {
    spec_lower_label(st.mode) + " "@ + spec_class_word(st, now)
}

/// Status-bar text: the mode's icon and the whole minutes left, or the whole
/// minutes overdue behind a plus sign.
pub open spec fn spec_text(st: State, now: i64) -> Seq<char> {
    if spec_remaining(st, now) > 0 {
        spec_icon(st.mode) + " "@ + spec_udigits((spec_remaining(st, now) / 60) as nat)
            + " minutes"@
    } else {
        spec_icon(st.mode) + " +"@ + spec_udigits(spec_overdue_minutes(st, now) as nat)
            + " minutes"@
    }
}

/// Tooltip: current mode label, target minutes, and elapsed whole minutes.
pub open spec fn spec_tooltip(st: State, now: i64) -> Seq<char> {
    "Current: "@ + spec_label(st.mode) + "\n Target: "@ + spec_udigits(
        spec_target_minutes(st.mode) as nat,
    ) + " minutes\nElapsed: "@ + spec_udigits((spec_elapsed(st, now) / 60) as nat) + " minutes"@
}

/// Compute the status line for `st` at wall-clock second `now`, and whether
/// the one-time threshold alert is due.
pub fn compute_status(st: &State, now: i64) -> (r: (StatusOutput, bool))
    requires
        st.start_timestamp <= now,
        now - st.start_timestamp <= i64::MAX - 2700,
    ensures
        r.0.text@ == spec_text(*st, now),
        r.0.tooltip@ == spec_tooltip(*st, now),
        r.0.class@ == spec_class(*st, now),
        r.1 == spec_notify(*st, now),
{
    let elapsed: i64 = now - st.start_timestamp;
    let target_seconds: i64 = (st.mode.target_minutes() as i64) * 60;
    let remaining: i64 = target_seconds - elapsed;

    let mut text = String::from_str(st.mode.icon());
    let notify: bool;
    let class_word: &'static str;
    if remaining > 0 {
        let minutes_left: u64 = (remaining as u64) / 60;
        text.append(" ");
        let digits = u64_to_string(minutes_left);
        text.append(digits.as_str());
        text.append(" minutes");
        class_word = if minutes_left < 2 {
            "warning"
        } else {
            "normal"
        };
        notify = false;
        proof {
            assert(minutes_left as int == spec_remaining(*st, now) / 60);
            assert(text@ =~= spec_text(*st, now));
        }
    } else {
        let overdue: u64 = ((elapsed - target_seconds) as u64) / 60;
        text.append(" +");
        let digits = u64_to_string(overdue);
        text.append(digits.as_str());
        text.append(" minutes");
        class_word = "critical";
        notify = remaining == -1 || remaining == -2;
        proof {
            assert(overdue as int == spec_overdue_minutes(*st, now));
            assert(text@ =~= spec_text(*st, now));
        }
    }

    let mut tooltip = String::from_str("Current: ");
    tooltip.append(st.mode.label());
    tooltip.append("\n Target: ");
    let target_digits = u64_to_string(st.mode.target_minutes());
    tooltip.append(target_digits.as_str());
    tooltip.append(" minutes\nElapsed: ");
    let elapsed_digits = u64_to_string((elapsed as u64) / 60);
    tooltip.append(elapsed_digits.as_str());
    tooltip.append(" minutes");
    proof {
        assert((elapsed as u64) as int / 60 == spec_elapsed(*st, now) / 60);
        assert(tooltip@ =~= spec_tooltip(*st, now));
    }

    let mut class = String::from_str(st.mode.lower_label());
    class.append(" ");
    class.append(class_word);
    proof {
        assert(class@ =~= spec_class(*st, now));
    }

    (StatusOutput { text, tooltip, class }, notify)
}

/// The status record is a function of mode, start time, and clock alone: any
/// two results that meet `compute_status`'s contract for the same state and
/// the same clock second agree in every field.
pub proof fn lemma_status_deterministic(
    st: State,
    now: i64,
    a: (StatusOutput, bool),
    b: (StatusOutput, bool),
)
    requires
        a.0.text@ == spec_text(st, now),
        a.0.tooltip@ == spec_tooltip(st, now),
        a.0.class@ == spec_class(st, now),
        a.1 == spec_notify(st, now),
        b.0.text@ == spec_text(st, now),
        b.0.tooltip@ == spec_tooltip(st, now),
        b.0.class@ == spec_class(st, now),
        b.1 == spec_notify(st, now),
    ensures
        a.0.text@ == b.0.text@,
        a.0.tooltip@ == b.0.tooltip@,
        a.0.class@ == b.0.class@,
        a.1 == b.1,
{
}

/// Reaching the target exactly (no second left, none over) already counts as
/// overdue: the class is critical and the text shows zero overdue minutes, but
/// the alert window has not opened yet.
pub proof fn lemma_boundary_at_target(st: State, now: i64)
    requires
        now - st.start_timestamp == spec_target_minutes(st.mode) * 60,
    ensures
        spec_remaining(st, now) == 0,
        spec_class(st, now) == spec_lower_label(st.mode) + " "@ + "critical"@,
        spec_text(st, now) == spec_icon(st.mode) + " +"@ + spec_udigits(0) + " minutes"@,
        !spec_notify(st, now),
{
}

/// The threshold alert of `compute_status` fires exactly one or two seconds
/// after the target is crossed, and at no other time; the toggle notification
/// is separate and unconditional.
pub proof fn lemma_notify_window(st: State, now: i64)
    ensures
        spec_notify(st, now) <==> (spec_remaining(st, now) == -1 || spec_remaining(st, now)
            == -2),
        spec_remaining(st, now) < -2 ==> !spec_notify(st, now),
        spec_remaining(st, now) >= 0 ==> !spec_notify(st, now),
{
}

} // verus!
