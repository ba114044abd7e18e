//! Records of the registry, and the fixtures that are written to it.
pub mod fixture;
pub mod integrity;
pub mod laws;
pub mod mainnet;
pub mod state_machine;
