//! The client's configuration: the `gungc` command line.

use vstd::prelude::*;

use crate::json::Payload;

verus! {

/// The command line of the client.
pub struct CliConfig {
    /// The local service to expose, as written (`HOST:PORT` or `PORT`).
    pub local_addr: String,
    pub proxy: ProxyConfig,
    pub transport: TransportConfig,
    /// Extra authentication data; it must be a JSON object.
    pub data: Option<Payload>,
}

/// The proxy that the client asks the server for.
#[derive(Clone, Debug)]
pub struct ProxyConfig {
    pub proxy_type: ProxyType,
    pub proxy_params: ProxyParams,
}

/// The kinds of proxy.
#[derive(Clone, Copy, Debug, PartialEq, Eq)]
pub enum ProxyType {
    Tcp,
    Http,
}

/// The parameters of a proxy.
#[derive(Clone, Debug)]
pub struct ProxyParams {
    /// The port to listen on at the server, if the client names one.
    pub remote_port: Option<u16>,
    pub custom_domain: Option<String>,
    pub sub_domain: Option<String>,
}

/// The transport that the client connects with.
pub struct TransportConfig {
    pub transport_type: TransportType,
    pub transport_params: TransportParams,
    /// Seconds without a ping from the server before the client gives up.
    pub keepalive_timeout: u64,
}

/// The transport protocols.
#[derive(Clone, Copy, Debug, PartialEq, Eq)]
pub enum TransportType {
    Quic,
    Tcp,
    Kcp,
    Websocket,
}

/// Where and how to reach the server.
pub struct TransportParams {
    /// The server's address, as written.
    pub server_addr: String,
    pub cert_path: Option<String>,
    pub hostname: Option<String>,
    pub no_delay: Option<bool>,
    pub no_tls: bool,
}

} // verus!
