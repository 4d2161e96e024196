//! The client side of the Model Context Protocol.
pub mod client;
pub mod jsonrpc;
pub mod laws;
pub mod registry;
pub mod tools;
