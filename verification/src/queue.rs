//! Queues.

pub mod buffered;
pub mod laws;
