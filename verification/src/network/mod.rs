//! What the transport is told.
pub mod orchestrator;
