//! The authenticator that lets every client in.

use vstd::prelude::*;

use crate::auth::msg::{AuthAcceptResp, AuthContext, AuthResp, AuthRespView};
use crate::auth::{AuthError, Authenticator};

verus! {

/// Accepts every client.
pub struct PassAuthenticator();

impl PassAuthenticator {
    /// The authenticator that accepts every client.
    pub fn new() -> (a: Self) {
        PassAuthenticator()
    }
}

impl Authenticator for PassAuthenticator {
    /// Always `Accept` with the message `pass`.
    fn authenticate(&self, _ctx: &AuthContext) -> (r: Result<AuthResp, AuthError>)
        ensures
            r matches Ok(resp) && resp@ == AuthRespView::Accept("pass"@),
    {
        Ok(AuthResp::Accept(AuthAcceptResp::new(String::from_str("pass"))))
    }
}

} // verus!
