//! The dispatch core of a relay push client: it resolves the ingest target
//! from the configured push URL and decides, event by event, which push
//! sessions to launch.

pub mod client;
pub mod decimal;
pub mod event;
pub mod laws;
pub mod scan;
pub mod session;
pub mod target;
