//! The task that owns the modem: what it is asked to do and what it reports.

pub mod action;
pub mod laws;
pub mod poll;
pub mod request;
pub mod telemetry;
