//! A multi-client chat relay: connection registry, passcode handshake and
//! the per-connection relay state machine, with the socket work left to the
//! program that embeds the library.
pub mod addr;
pub mod config;
pub mod errors;
pub mod registry;
pub mod auth;
pub mod wire;
pub mod relay;
pub mod admission;
