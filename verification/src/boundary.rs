//! The routing layer of a boundary node: it takes requests for canisters, finds a
//! node of the right subnet, and hands the request on.
pub mod laws;
pub mod log;
pub mod redirect;
pub mod request;
pub mod routing;
pub mod types;
