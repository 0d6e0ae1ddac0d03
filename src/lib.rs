//! A JSON-RPC client core for blockchain nodes: request planning with a
//! wrapping id counter, all-or-nothing response gathering, chain id
//! resolution, and construction of transaction envelopes.

pub mod encoding;
pub mod rpc;
pub mod transaction;
pub mod client;
pub mod laws;
