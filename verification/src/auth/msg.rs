//! The messages of the authentication handshake and its context.

use vstd::prelude::*;

use crate::config::client::ProxyConfig;
use crate::json::{JsonValue, Payload, PayloadView};

verus! {

/// The field of the first request that carries the client's version.
pub const VERSION_AUTH_FIELD: &'static str = "__version";

/// The field of the first request that carries the requested proxy.
pub const PROXY_AUTH_FIELD: &'static str = "__proxy";

/// The field of the first request that carries the server address the client dialled.
pub const SERVER_IP_AUTH_FIELD: &'static str = "__server_ip";

/// A request of the client: a JSON payload.
pub struct AuthReq {
    pub payload: Payload,
}

/// The server's answer to a request.
pub enum AuthResp {
    Accept(AuthAcceptResp),
    Reject(AuthRejectResp),
    Challenge(AuthChallengeResp),
}

/// The client is let in.
pub struct AuthAcceptResp {
    pub msg: String,
}

/// The client is turned away.
pub struct AuthRejectResp {
    pub msg: String,
}

/// The client must send another request with the required fields.
pub struct AuthChallengeResp {
    pub msg: String,
    pub required_fields: Vec<String>,
}

/// The mathematical view of a response.
pub enum AuthRespView {
    Accept(Seq<char>),
    Reject(Seq<char>),
    Challenge(Seq<char>, Seq<Seq<char>>),
}

/// The views of a list of strings.
pub open spec fn strings_view(v: Seq<String>) -> Seq<Seq<char>> {
    v.map_values(|s: String| s@)
}

impl View for AuthResp {
    type V = AuthRespView;

    open spec fn view(&self) -> AuthRespView {
        match self {
            AuthResp::Accept(a) => AuthRespView::Accept(a.msg@),
            AuthResp::Reject(r) => AuthRespView::Reject(r.msg@),
            AuthResp::Challenge(c) => AuthRespView::Challenge(c.msg@, strings_view(c.required_fields@)),
        }
    }
}

impl View for AuthReq {
    type V = PayloadView;

    open spec fn view(&self) -> PayloadView {
        self.payload@
    }
}

/// The views of a list of requests.
pub open spec fn requests_view(v: Seq<AuthReq>) -> Seq<PayloadView> {
    v.map_values(|r: AuthReq| r@)
}

/// The views of a list of responses.
pub open spec fn responses_view(v: Seq<AuthResp>) -> Seq<AuthRespView> {
    v.map_values(|r: AuthResp| r@)
}

fn strings_copy(v: &Vec<String>) -> (c: Vec<String>)
    ensures
        strings_view(c@) == strings_view(v@),
{
    let mut c: Vec<String> = Vec::new();
    let mut i: usize = 0;
    while i < v.len()
        invariant
            i <= v@.len(),
            c@.len() == i,
            forall|k: int| 0 <= k < i ==> #[trigger] c@[k]@ == v@[k]@,
        decreases v@.len() - i,
    {
        c.push(v[i].clone());
        i = i + 1;
    }
    assert(strings_view(c@) =~= strings_view(v@));
    c
}

impl AuthAcceptResp {
    /// An acceptance with the given message.
    pub fn new(msg: String) -> (r: Self)
        ensures
            r.msg == msg,
    {
        AuthAcceptResp { msg }
    }
}

impl AuthReq {
    /// A copy of this request.
    pub fn duplicate(&self) -> (r: AuthReq)
        ensures
            r@ == self@,
    {
        AuthReq { payload: self.payload.duplicate() }
    }
}

impl AuthResp {
    /// An acceptance: `Accept { msg }`.
    pub fn accept(msg: String) -> (r: Self)
        ensures
            r@ == AuthRespView::Accept(msg@),
    {
        AuthResp::Accept(AuthAcceptResp { msg })
    }

    /// A rejection: `Reject { msg }`.
    pub fn reject(msg: String) -> (r: Self)
        ensures
            r@ == AuthRespView::Reject(msg@),
    {
        AuthResp::Reject(AuthRejectResp { msg })
    }

    /// A challenge: `Challenge { msg, required_fields }`.
    pub fn challenge(msg: String, required_fields: Vec<String>) -> (r: Self)
        ensures
            r@ == AuthRespView::Challenge(msg@, strings_view(required_fields@)),
    {
        AuthResp::Challenge(AuthChallengeResp { msg, required_fields })
    }

    /// A copy of this response.
    pub fn duplicate(&self) -> (r: AuthResp)
        ensures
            r@ == self@,
    {
        match self {
            AuthResp::Accept(a) => AuthResp::Accept(AuthAcceptResp { msg: a.msg.clone() }),
            AuthResp::Reject(a) => AuthResp::Reject(AuthRejectResp { msg: a.msg.clone() }),
            AuthResp::Challenge(c) => AuthResp::Challenge(
                AuthChallengeResp { msg: c.msg.clone(), required_fields: strings_copy(&c.required_fields) },
            ),
        }
    }
}

/// Whether `c` is a lowercase hexadecimal digit.
pub open spec fn is_lower_hex(c: char) -> bool {
    ('0' <= c && c <= '9') || ('a' <= c && c <= 'f')
}

/// The text of a version-4 UUID in its hyphenated lowercase form: 36
/// characters, hyphens at positions 8, 13, 18 and 23, the version digit `4`
/// at 14, a variant digit of `8` to `b` at 19, and lowercase hexadecimal
/// digits elsewhere.
pub open spec fn is_uuid_v4_text(t: Seq<char>) -> bool {
    &&& t.len() == 36
    &&& forall|i: int|
        0 <= i < 36 ==> if i == 8 || i == 13 || i == 18 || i == 23 {
            #[trigger] t[i] == '-'
        } else {
            is_lower_hex(t[i])
        }
    &&& t[14] == '4'
    &&& ('8' <= t[19] && t[19] <= '9') || ('a' <= t[19] && t[19] <= 'b')
}

/// `uuid::Uuid::new_v4().to_string()`: a fresh random identifier, as the
/// hyphenated lowercase text of a version-4 UUID. Which identifier comes back
/// is left open.
#[verifier::external_body]
fn new_auth_id() -> (id: String)
    ensures
        is_uuid_v4_text(id@),
{
    uuid::Uuid::new_v4().to_string()
}

/// Everything the server knows about a client during its authentication.
pub struct AuthContext {
    /// A fresh identifier of this authentication; it also names the proxy.
    pub auth_id: String,
    /// The server address that the client dialled, in its canonical text.
    pub server_ip: String,
    /// The client's version, in its canonical text.
    pub client_version: String,
    /// The client's socket address, as text.
    pub client_addr: String,
    /// The proxy that the client asks for.
    pub proxy: ProxyConfig,
    /// The client's requests so far, oldest first.
    pub requests: Vec<AuthReq>,
    /// The server's challenges so far, oldest first.
    pub responses: Vec<AuthResp>,
}

impl AuthContext {
    /// The context of a new authentication, opened by the client's first request.
    pub fn new(
        client_version: String,
        server_ip: String,
        client_addr: String,
        req: AuthReq,
        proxy: ProxyConfig,
    ) -> (ctx: Self)
        ensures
            is_uuid_v4_text(ctx.auth_id@),
            ctx.client_version == client_version,
            ctx.server_ip == server_ip,
            ctx.client_addr == client_addr,
            ctx.proxy == proxy,
            requests_view(ctx.requests@) == seq![req@],
            ctx.responses@.len() == 0,
    {
        let mut requests: Vec<AuthReq> = Vec::new();
        let ghost r = req@;
        requests.push(req);
        assert(requests_view(requests@) =~= seq![r]);
        AuthContext {
            auth_id: new_auth_id(),
            requests,
            responses: Vec::new(),
            client_version,
            server_ip,
            client_addr,
            proxy,
        }
    }

    /// The client's version, as text.
    pub fn client_version(&self) -> (v: String)
        ensures
            v@ == self.client_version@,
    {
        self.client_version.clone()
    }

    /// The client's address, as text.
    pub fn client_addr(&self) -> (a: String)
        ensures
            a@ == self.client_addr@,
    {
        self.client_addr.clone()
    }

    /// The number of requests received so far.
    pub fn round(&self) -> (n: usize)
        ensures
            n == self.requests@.len(),
    {
        self.requests.len()
    }
}

} // verus!
