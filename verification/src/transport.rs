//! The transports that carry a client's logical connection: TCP, QUIC, KCP
//! and WebSocket.
//!
//! The sockets, TLS and multiplexing are driven outside the library; here
//! are the transports' options and the decisions that turn a configuration
//! into the settings a transport is built with.

use vstd::prelude::*;

use crate::config::client::TransportParams;
use crate::config::server::{ProtocolConfig, TransportConfig};

verus! {

/// Why a transport could not be built from a configuration.
#[derive(Debug, Clone, Copy, PartialEq, Eq)]
pub enum TransportError {
    /// The configuration is for another protocol than the transport.
    InvalidProtocolConfig,
}

/// The QUIC transport.
pub struct QuicTransport {}

/// The TCP transport's options for connecting: the TLS server name to use.
pub struct TcpTransportClientOption {
    pub hostname: Option<String>,
}

/// The TCP transport's options for listening.
pub struct TcpTransportServerOption {}

/// The KCP transport's options for connecting.
pub struct KcpTransportClientOption {}

/// The KCP transport's options for listening.
pub struct KcpTransportServerOption {}

/// The WebSocket transport's options for connecting: the TLS server name to use.
pub struct WebsocketTransportClientOption {
    pub hostname: Option<String>,
}

/// The WebSocket transport's options for listening.
pub struct WebsocketTransportServerOption {}

/// Whether a listening TCP transport disables Nagle's algorithm; the
/// configuration must be for TCP.
pub fn tcp_server_no_delay(config: &TransportConfig) -> (r: Result<bool, TransportError>)
    ensures
        match config.protocol {
            ProtocolConfig::Tcp(c) => r == Ok::<bool, TransportError>(c.no_delay),
            _ => r == Err::<bool, TransportError>(TransportError::InvalidProtocolConfig),
        },
{
    match &config.protocol {
        ProtocolConfig::Tcp(c) => Ok(c.no_delay),
        _ => Err(TransportError::InvalidProtocolConfig),
    }
}

/// Whether a listening KCP transport runs in no-delay mode; the configuration
/// must be for KCP.
pub fn kcp_server_no_delay(config: &TransportConfig) -> (r: Result<bool, TransportError>)
    ensures
        match config.protocol {
            ProtocolConfig::Kcp(c) => r == Ok::<bool, TransportError>(c.no_delay),
            _ => r == Err::<bool, TransportError>(TransportError::InvalidProtocolConfig),
        },
{
    match &config.protocol {
        ProtocolConfig::Kcp(c) => Ok(c.no_delay),
        _ => Err(TransportError::InvalidProtocolConfig),
    }
}

/// Checks that the configuration is for WebSocket.
pub fn websocket_server_check(config: &TransportConfig) -> (r: Result<(), TransportError>)
    ensures
        r is Ok <==> config.protocol is Websocket,
{
    match &config.protocol {
        ProtocolConfig::Websocket(_) => Ok(()),
        _ => Err(TransportError::InvalidProtocolConfig),
    }
}

/// The key and certificate paths of a listening QUIC transport; the
/// configuration must be for QUIC.
pub fn quic_server_paths(config: &TransportConfig) -> (r: Result<
    (Option<String>, Option<String>),
    TransportError,
>)
    ensures
        match config.protocol {
            ProtocolConfig::Quic(c) => r matches Ok((key, cert)) && key == c.tls_key && cert
                == c.tls_cert,
            _ => r == Err::<(Option<String>, Option<String>), TransportError>(
                TransportError::InvalidProtocolConfig,
            ),
        },
{
    match &config.protocol {
        ProtocolConfig::Quic(c) => Ok((c.tls_key.clone(), c.tls_cert.clone())),
        _ => Err(TransportError::InvalidProtocolConfig),
    }
}

/// Whether a connecting transport disables delays: as configured, and by
/// default yes.
pub fn client_no_delay(params: &TransportParams) -> (b: bool)
    ensures
        b == match params.no_delay {
            Some(v) => v,
            None => true,
        },
{
    match params.no_delay {
        Some(v) => v,
        None => true,
    }
}

/// The TLS server name to present: the configured hostname, or else the
/// default (the text of the server's IP address).
pub fn server_name(hostname: &Option<String>, default_hostname: String) -> (n: String)
    ensures
        match hostname {
            Some(h) => n@ == h@,
            None => n@ == default_hostname@,
        },
{
    match hostname {
        Some(h) => h.clone(),
        None => default_hostname,
    }
}

/// Where a listening transport's certificate and key come from.
pub enum CertSource {
    /// Both were configured: load them from these paths.
    Load { key_path: String, cert_path: String },
    /// Otherwise: use the self-signed pair kept in the data directory,
    /// generating it the first time.
    SelfSigned,
}

/// The certificate source for the configured key and certificate paths.
pub fn cert_source(key: &Option<String>, cert: &Option<String>) -> (s: CertSource)
    ensures
        match (key, cert) {
            (Some(k), Some(c)) => s matches CertSource::Load { key_path, cert_path } && key_path@
                == k@ && cert_path@ == c@,
            _ => s is SelfSigned,
        },
{
    match (key, cert) {
        (Some(k), Some(c)) => CertSource::Load { key_path: k.clone(), cert_path: c.clone() },
        _ => CertSource::SelfSigned,
    }
}

} // verus!
