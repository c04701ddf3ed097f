//! Work-log bookkeeping: an append-only sheet of begin, end, pause and switch
//! events, the rules that decide whether a new event may be appended, and the
//! fold that turns a sheet into per-week, per-day, per-project durations.

pub mod cli;
pub mod events;
pub mod laws;
pub mod options;
pub mod time;
pub mod viewer;
