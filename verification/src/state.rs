use vstd::prelude::*;
use vstd::string::StringExecFns;

verus! {

/// Minutes a sitting interval is meant to last before it is overdue.
pub const SIT_MINUTES: u64 = 45;

/// Minutes a standing interval is meant to last before it is overdue.
pub const STAND_MINUTES: u64 = 15;

/// Posture the user currently holds.
#[derive(Clone, Copy, Debug, PartialEq, Eq, Structural)]
pub enum Mode {
    Sitting,
    Standing,
}

/// The persisted record: the current mode and the Unix second at which its
/// interval began.
#[derive(Clone, Copy, Debug, PartialEq, Eq, Structural)]
pub struct State {
    pub mode: Mode,
    pub start_timestamp: i64,
}

/// The opposite posture.
pub open spec fn spec_flip(m: Mode) -> Mode {
    match m {
        Mode::Sitting => Mode::Standing,
        Mode::Standing => Mode::Sitting,
    }
}

/// Minutes an interval in mode `m` is meant to last.
pub open spec fn spec_target_minutes(m: Mode) -> int {
    match m {
        Mode::Sitting => 45,
        Mode::Standing => 15,
    }
}

/// Display label of a mode.
pub open spec fn spec_label(m: Mode) -> Seq<char> {
    match m {
        Mode::Sitting => "Sitting"@,
        Mode::Standing => "Standing"@,
    }
}

/// Lower-case label of a mode, as used in the style class.
pub open spec fn spec_lower_label(m: Mode) -> Seq<char> {
    match m {
        Mode::Sitting => "sitting"@,
        Mode::Standing => "standing"@,
    }
}

/// Status-bar icon of a mode.
pub open spec fn spec_icon(m: Mode) -> Seq<char> {
    match m {
        Mode::Sitting => "\u{1FA91}"@,
        Mode::Standing => "\u{1F9CD}"@,
    }
}

/// Toggling flips the mode and restarts the interval at `now`.
pub open spec fn spec_toggle(st: State, now: i64) -> State {
    State { mode: spec_flip(st.mode), start_timestamp: now }
}

/// Body of the notification announcing a freshly toggled mode.
pub open spec fn spec_toggle_message(m: Mode) -> Seq<char> {
    match m {
        Mode::Sitting => "Time to sit down (45 minutes)"@,
        Mode::Standing => "Time to stand up (15 minutes)"@,
    }
}

/// Body of the alert sent right after an interval crosses its target.
pub open spec fn spec_alert_message(m: Mode) -> Seq<char> {
    spec_label(m) + " limit reached. Switch position now!"@
}

impl Mode {
    /// The opposite posture.
    pub fn flipped(self) -> (r: Mode)
        ensures
            r == spec_flip(self),
    {
        match self {
            Mode::Sitting => Mode::Standing,
            Mode::Standing => Mode::Sitting,
        }
    }

    /// Minutes an interval in this mode is meant to last.
    pub fn target_minutes(self) -> (r: u64)
        ensures
            r == spec_target_minutes(self),
    {
        match self {
            Mode::Sitting => SIT_MINUTES,
            Mode::Standing => STAND_MINUTES,
        }
    }

    /// Display label of this mode.
    pub fn label(self) -> (r: &'static str)
        ensures
            r@ == spec_label(self),
    {
        match self {
            Mode::Sitting => "Sitting",
            Mode::Standing => "Standing",
        }
    }

    /// Lower-case label of this mode.
    pub fn lower_label(self) -> (r: &'static str)
        ensures
            r@ == spec_lower_label(self),
    {
        match self {
            Mode::Sitting => "sitting",
            Mode::Standing => "standing",
        }
    }

    /// Status-bar icon of this mode.
    pub fn icon(self) -> (r: &'static str)
        ensures
            r@ == spec_icon(self),
    {
        match self {
            Mode::Sitting => "\u{1FA91}",
            Mode::Standing => "\u{1F9CD}",
        }
    }
}

/// The state used when nothing was persisted: sitting, interval starting now.
pub fn default_state(now: i64) -> (st: State)
    ensures
        st == (State { mode: Mode::Sitting, start_timestamp: now }),
{
    State { mode: Mode::Sitting, start_timestamp: now }
}

/// Flip the mode and restart the interval at `now`.
pub fn toggle(st: &State, now: i64) -> (r: State)
    ensures
        r == spec_toggle(*st, now),
{
    State { mode: st.mode.flipped(), start_timestamp: now }
}

/// Body of the notification announcing a freshly toggled mode.
pub fn toggle_message(m: Mode) -> (r: &'static str)
    ensures
        r@ == spec_toggle_message(m),
{
    match m {
        Mode::Sitting => "Time to sit down (45 minutes)",
        Mode::Standing => "Time to stand up (15 minutes)",
    }
}

/// Body of the alert sent right after an interval crosses its target.
pub fn alert_message(m: Mode) -> (r: String)
    ensures
        r@ == spec_alert_message(m),
{
    let mut s = String::from_str(m.label());
    s.append(" limit reached. Switch position now!");
    s
}

/// Toggling twice restores the original mode; the start time is that of the
/// last toggle.
pub proof fn lemma_toggle_involution(st: State, t1: i64, t2: i64)
    ensures
        spec_toggle(spec_toggle(st, t1), t2).mode == st.mode,
        spec_toggle(spec_toggle(st, t1), t2).start_timestamp == t2,
{
}

} // verus!
