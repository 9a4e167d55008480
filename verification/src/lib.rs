//! An interactive terminal dashboard for composing ad-hoc telemetry queries,
//! watching their results refresh live, and persisting the working set as a
//! named session.
//!
//! This crate holds the verified core: the structured query model with its
//! bidirectional textual form, the dataset and session store, and the UI
//! state machine that routes input events and mutates the store.

pub mod app;
pub mod backend;
pub mod dataset;
pub mod laws;
pub mod parser;
pub mod query;
