use vstd::prelude::*;

use crate::codec::{parse_state_json, spec_state_json};
use crate::state::{default_state, Mode, State};

verus! {

/// Relies on `chrono::Local::now` and `chrono::DateTime::timestamp` for the
/// wall clock, read as whole seconds since the Unix epoch. The result depends
/// on the machine's clock, so nothing is promised of it.
#[verifier::external_body]
fn now_timestamp() -> i64 {
    chrono::Local::now().timestamp()
}

/// Interpret what was read from the state file, if anything. A readable,
/// well-formed record is returned as it stands; missing or corrupt contents
/// fall back to a fresh sitting state whose interval starts at the current
/// clock second, as on a first run.
pub fn load_state(contents: Option<&String>) -> (st: State)
    ensures
        (match contents {
            Option::Some(c) => forall|st0: State| c@ == spec_state_json(st0) ==> st == st0,
            Option::None => st.mode == Mode::Sitting,
        }),
        (match contents {
            Option::Some(c) => (forall|st0: State| c@ != spec_state_json(st0)) ==> st.mode
                == Mode::Sitting,
            Option::None => true,
        }),
{
    match contents {
        Option::Some(c) => {
            match parse_state_json(c.as_str()) {
                Option::Some(st) => st,
                Option::None => default_state(now_timestamp()),
            }
        },
        Option::None => default_state(now_timestamp()),
    }
}

} // verus!
