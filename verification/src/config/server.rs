//! The server's configuration: the `gungs` command line and its run file.

use vstd::prelude::*;

verus! {

/// The subcommands of the server's command line.
pub enum Command {
    /// Run the server with the configuration file at this path.
    Run { config_file_path: String },
}

/// The whole run configuration of a server.
pub struct RunConfig {
    pub transport: TransportConfig,
    pub auth: AuthConfig,
    pub proxy: ProxyConfig,
    pub plugin: Option<PluginConfig>,
}

/// How clients are authenticated.
pub struct AuthConfig {
    pub authenticator: AuthenticatorConfig,
    /// Timeout for a single authentication attempt (in seconds).
    pub timeout: u64,
}

/// The authenticator that the server uses.
pub enum AuthenticatorConfig {
    Pass,
    PyPlugin(PyPluginAuthenticatorConfig),
    Token(TokenAuthenticatorConfig),
}

/// A Python file whose `authenticate` function decides.
pub struct PyPluginAuthenticatorConfig {
    pub file_path: String,
}

/// The token that clients must present.
pub struct TokenAuthenticatorConfig {
    pub token: String,
}

/// The server's plugins.
pub struct PluginConfig {
    pub python: Option<PythonPluginConfig>,
}

/// Where Python plugins are looked up.
pub struct PythonPluginConfig {
    pub base_pkg_path: String,
}

/// Which ports proxies may listen on, and which kinds of proxy are offered.
pub struct ProxyConfig {
    pub allowed_ports: Option<Vec<PortRangeConfig>>,
    pub tcp: Option<TcpProxyConfig>,
    pub http: Option<HttpProxyConfig>,
}

/// One port, or the ports from the first to the second bound, both included.
#[derive(Clone, Copy, Debug, PartialEq, Eq)]
pub enum PortRangeConfig {
    Single(u16),
    Range(u16, u16),
}

/// Settings of TCP proxies.
pub struct TcpProxyConfig {}

/// Settings of HTTP proxies.
pub struct HttpProxyConfig {
    pub base_domain: String,
}

/// The transport that the server listens with.
pub struct TransportConfig {
    /// The listening address, as written (for example `0.0.0.0:7777`).
    pub addr: String,
    pub protocol: ProtocolConfig,
    pub keepalive: KeepaliveConfig,
}

/// How often proxies ping their client, and how long they wait for it.
#[derive(Clone, Copy, Debug, PartialEq, Eq)]
pub struct KeepaliveConfig {
    pub keepalive_interval: u64,
    pub keepalive_timeout: u64,
}

/// The transport protocol and its settings.
pub enum ProtocolConfig {
    Tcp(TcpTransportConfig),
    Quic(QuicTransportConfig),
    Kcp(KcpTransportConfig),
    Websocket(WebsocketTransportConfig),
}

/// Settings of the TCP transport.
pub struct TcpTransportConfig {
    pub no_delay: bool,
}

/// Settings of the QUIC transport: an optional certificate and key.
pub struct QuicTransportConfig {
    pub tls_cert: Option<String>,
    pub tls_key: Option<String>,
}

/// Settings of the KCP transport.
pub struct KcpTransportConfig {
    pub no_delay: bool,
}

/// Settings of the WebSocket transport.
pub struct WebsocketTransportConfig {}

/// The listening address used when the run file names none.
pub fn default_addr() -> (addr: String)
    ensures
        addr@ == "0.0.0.0:7777"@,
{
    String::from_str("0.0.0.0:7777")
}

impl Default for KeepaliveConfig {
    /// The keepalive used when the run file names none: a ping every 600
    /// seconds, and 700 seconds of silence before the client is given up.
    fn default() -> (c: Self)
        ensures
            c.keepalive_interval == 600,
            c.keepalive_timeout == 700,
    {
        KeepaliveConfig {
            keepalive_interval: crate::config::default_u64::<600>(),
            keepalive_timeout: crate::config::default_u64::<700>(),
        }
    }
}

impl Default for QuicTransportConfig {
    /// No certificate and no key: a self-signed certificate is used.
    fn default() -> (c: Self)
        ensures
            c.tls_cert is None,
            c.tls_key is None,
    {
        QuicTransportConfig { tls_cert: None, tls_key: None }
    }
}

} // verus!
