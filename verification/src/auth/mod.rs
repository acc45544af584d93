//! Authentication of clients: the messages of the handshake and the
//! authenticators that decide on them.

pub mod codec;
pub mod msg;
pub mod pass;
pub mod token;

use vstd::prelude::*;

use crate::config::server::{AuthConfig, AuthenticatorConfig};
use self::msg::{AuthContext, AuthResp};
use self::pass::PassAuthenticator;
use self::token::TokenAuthenticator;

verus! {

/// Why a handshake could not go on.
#[derive(Debug, PartialEq, Eq)]
pub enum AuthError {
    /// The context holds no request to decide on.
    NoRequest,
    /// The first request carries no version string.
    VersionRequired,
    /// The version string is not a SemVer version; the parser's message.
    InvalidVersion(String),
    /// The first request carries no server address string.
    ServerIpRequired,
}

/// A decision procedure on a client's authentication.
pub trait Authenticator {
    /// Answers the latest request of `ctx`.
    fn authenticate(&self, ctx: &AuthContext) -> Result<AuthResp, AuthError>;
}

/// The authenticator that a configuration selects.
pub enum ConfiguredAuthenticator {
    Pass(PassAuthenticator),
    Token(TokenAuthenticator),
    /// A Python plugin, loaded from this file by the embedding program.
    PyPlugin(String),
}

/// The authenticator that `config` selects.
pub fn from(config: &AuthConfig) -> (a: ConfiguredAuthenticator)
    ensures
        match config.authenticator {
            AuthenticatorConfig::Pass => a is Pass,
            AuthenticatorConfig::Token(t) => a matches ConfiguredAuthenticator::Token(x) && x.token()
                == t.token@,
            AuthenticatorConfig::PyPlugin(p) => a matches ConfiguredAuthenticator::PyPlugin(f) && f@
                == p.file_path@,
        },
{
    match &config.authenticator {
        AuthenticatorConfig::Pass => ConfiguredAuthenticator::Pass(PassAuthenticator::new()),
        AuthenticatorConfig::Token(t) => ConfiguredAuthenticator::Token(
            TokenAuthenticator::new(t.token.clone()),
        ),
        AuthenticatorConfig::PyPlugin(p) => ConfiguredAuthenticator::PyPlugin(p.file_path.clone()),
    }
}

} // verus!
