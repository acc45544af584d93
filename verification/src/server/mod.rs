//! The server side: the pool of proxy ports, the proxies and gateways that
//! forward remote requests to clients, and the server's part of the
//! authentication handshake.

pub mod port;
pub mod service;
pub mod proxy;
pub mod config;
