//! Endpoint telemetry: what a host reports of its processes, how the reports
//! travel to a collector, and what the collector hands to a language model.
//!
//! Everything here works on plain values. The program around the library makes
//! the system calls and hands their outcomes in.

pub mod agent;
pub mod bytes;
pub mod digest;
pub mod host;
pub mod ledger;
pub mod model;
pub mod orchestrator;
pub mod sensors;
pub mod status;
pub mod text;
pub mod time;
pub mod utf16;
