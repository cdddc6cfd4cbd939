//! The decisions of the STDIO and HTTP transports.
pub mod http;
pub mod stdio;
