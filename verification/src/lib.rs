//! Decision logic of a screenshot recorder that keeps only the captures
//! that differ enough from the last one kept for the same display.

pub mod args;
pub mod naming;
pub mod fingerprint;
pub mod baseline;
pub mod retention;
pub mod retention_laws;
pub mod control;
