//! Coordination core for a shared four-digit seven-segment clock display.
//!
//! The crate models the display as an abstract device driven by explicit
//! transport commands. Pure digit encoding, time formatting, request
//! validation and the time-synchronisation state machine are verified here;
//! the physical transport, the network stack and the HTTP server are outside
//! collaborators that execute the commands this crate decides on.

pub mod device;
pub mod display;
pub mod handler;
pub mod sync;
pub mod time;
pub mod utils;
