//! Multistream-select protocol negotiation, as verified state machines.

pub mod dialer_runs;
pub mod dialer_select;
pub mod io;
pub mod listener_runs;
pub mod listener_select;
pub mod negotiation;
pub mod protocol;
