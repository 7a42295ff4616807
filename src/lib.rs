//! An observable collection of engine-managed resources (containers, pods,
//! images): an ordered member sequence, a log of structural events for
//! subscribers, and per-status aggregate counts that always equal a fresh
//! count over the present members.
pub mod laws;
pub mod list;
pub mod resource;
pub mod status;
