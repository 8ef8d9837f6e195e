//! A sit/stand posture timer: a two-state interval machine whose status line,
//! persisted record, and notification decisions are computed by verified code.

pub mod codec;
pub mod digits;
pub mod state;
pub mod status;
pub mod store;
