//! Gung: the verified core of an intranet penetration tool.
//!
//! The library holds the logic of the tunnel: the framing of control messages,
//! the authentication handshake and its authenticators, the port pool of the
//! server, the decisions of proxies and gateways, and the configuration model.
//! Everything that performs network or file I/O lives outside this crate.

pub mod buffer;
pub mod frame;
pub mod config;
pub mod json;
pub mod server;
pub mod auth;
pub mod client;
pub mod protocol;
pub mod plugin;
pub mod transport;
pub mod cert;
