//! The consensus cache of a replica.
pub mod cache;
pub mod chain;
pub mod consistency;
pub mod laws;
pub mod pool;
pub mod types;
