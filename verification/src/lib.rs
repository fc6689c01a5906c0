//! Radar discovery for a SignalK plugin, written as a verified engine that
//! performs no I/O itself: it tells its host which socket calls to make and
//! decides what to do with the answers.

pub mod text;
pub mod socket;
pub mod radar;
pub mod plugin;
