//! Digital I/O control for a small microcontroller board: a debounced push
//! button, a pair of LEDs, timers, and bounded retry with exponential backoff.
//!
//! The hardware itself (pin drivers, the uptime clock, blocking delays) stays
//! outside this crate. Reads are handed in as values, writes and delays are
//! handed in as closures, and the current time is handed in as a number of
//! milliseconds.
pub mod error_handler;
pub mod led;
pub mod button;
pub mod math_utils;
pub mod time_utils;
pub mod wifi;
pub mod control;
