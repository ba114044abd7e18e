//! Verified logic of Internet Computer services: the consensus cache of a
//! replica, the routing layer of a boundary node, the ckBTC withdrawal flow,
//! and the record fixtures of the registry.
pub mod boundary;
pub mod consensus;
pub mod minter;
pub mod principal;
pub mod registry;
pub mod text;
