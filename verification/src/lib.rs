//! Core of a fleet monitoring responder: ingestion of periodic load and
//! health reports from monitored nodes, validation against each node's
//! configured operating mode, and reconciliation into a shared, concurrently
//! readable view of fleet state.

pub mod classify;
pub mod registry;
pub mod report;
pub mod responder;
pub mod shared;
pub mod store;
