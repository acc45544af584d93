//! A minimal run configuration of the server, naming only its transport.

use vstd::prelude::*;

verus! {

/// The run configuration: a transport.
pub struct RunConfig {
    pub transport: TransportConfig,
}

/// The transport, with its settings.
pub enum TransportConfig {
    Quic(QuicTransportConfig),
    Tcp(TcpTransportConfig),
}

/// QUIC without settings.
pub struct QuicTransportConfig {}

/// TCP without settings.
pub struct TcpTransportConfig {}

} // verus!
