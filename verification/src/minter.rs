//! The withdrawal of bitcoins for ckBTC.
pub mod blocklist;
pub mod kyt;
pub mod laws;
pub mod ledger;
pub mod replay;
pub mod retrieve_btc;
pub mod types;
