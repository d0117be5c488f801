//! Event log, reply classification and refresh dispatching for a wallet daemon.

pub mod dispatcher;
pub mod envelope;
pub mod event;
pub mod event_log;
pub mod report;
pub mod responses;
