//! Verified core of a Model Context Protocol hub: the JSON-RPC protocol
//! types, request dispatch, tool routing across sub-servers, and the logic
//! of the built-in tools.
pub mod decode;
pub mod hub;
pub mod json;
pub mod pattern;
pub mod protocol;
pub mod server;
pub mod text;
pub mod tools;
pub mod transport;
