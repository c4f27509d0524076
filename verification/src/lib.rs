//! Token lifecycle and snapshot aggregation for a desktop day-planner widget.
//!
//! The library holds the decisions: which step the token lifecycle takes,
//! how provider payloads become normalized events and tasks, how events are
//! ordered, and when the snapshot cache serves fresh or last-known data.
//! Network, disk and browser access are left to the program around it.

pub mod encoding;
pub mod auth;
pub mod tasks;
pub mod calendar;
pub mod agenda;
pub mod cache;
