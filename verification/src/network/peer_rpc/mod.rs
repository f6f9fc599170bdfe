//! Questions between nodes, over HTTP.

pub mod client;
pub mod exchange;
pub mod server;
pub mod types;
