//! The server's part of the authentication handshake.
//!
//! The server reads the client's first request, takes the client's version,
//! the requested proxy and the dialled address out of it, and opens an
//! [`AuthContext`]. It then asks its authenticator for an answer, sends the
//! answer, and either lets the client in, turns it away, or records the
//! challenge and waits for the client's next request. The reading, sending
//! and waiting are done by the caller; this module decides.

use vstd::prelude::*;

use crate::auth::msg::{
    AuthContext, AuthReq, AuthResp, AuthRespView, PROXY_AUTH_FIELD, SERVER_IP_AUTH_FIELD,
    VERSION_AUTH_FIELD, requests_view, responses_view,
};
use crate::auth::AuthError;
use crate::auth::token::{MAX_ROUND, token_decision};
use crate::json::{JsonValue, JsonView, PayloadView, field_str};

verus! {

/// The canonical text of the SemVer version that `text` denotes, as
/// `semver::Version::from_str` and the version's `Display` give it; `None`
/// when `text` is no valid version.
pub uninterp spec fn semver_canonical(text: Seq<char>) -> Option<Seq<char>>;

/// `text.parse::<semver::Version>()` followed by `to_string()` on success:
/// succeeds exactly when `text` is a valid version, and then gives its
/// canonical text. The parser's error message is handed out as it is, and
/// nothing is stated of it.
#[verifier::external_body]
fn parse_semver(text: &String) -> (r: Result<String, String>)
    ensures
        r is Ok <==> semver_canonical(text@) is Some,
        r matches Ok(v) ==> semver_canonical(text@) == Some(v@),
{
    match text.parse::<semver::Version>() {
        Ok(v) => Ok(v.to_string()),
        Err(e) => Err(e.to_string()),
    }
}

/// The client's version: the string in the version field of the first
/// request, which must be a SemVer version; its canonical text.
pub fn read_client_version(req: &AuthReq) -> (r: Result<String, AuthError>)
    ensures
        match field_str(req@, VERSION_AUTH_FIELD@) {
            None => r == Err::<String, AuthError>(AuthError::VersionRequired),
            Some(t) => match semver_canonical(t) {
                Some(v) => r matches Ok(x) && x@ == v,
                None => r matches Err(AuthError::InvalidVersion(_)),
            },
        },
{
    let key = String::from_str(VERSION_AUTH_FIELD);
    match req.payload.get_str(&key) {
        None => Err(AuthError::VersionRequired),
        Some(text) => match parse_semver(&text) {
            Ok(v) => Ok(v),
            Err(msg) => Err(AuthError::InvalidVersion(msg)),
        },
    }
}

/// The value of the proxy field of the first request, or JSON `null` when the
/// request binds none (as indexing a JSON value gives).
pub fn proxy_field(req: &AuthReq) -> (v: JsonValue)
    ensures
        match req@ {
            PayloadView::Object(m) => if m.contains_key(PROXY_AUTH_FIELD@) {
                v@ == m[PROXY_AUTH_FIELD@]
            } else {
                v@ == JsonView::Other("null"@)
            },
            PayloadView::Other(_) => v@ == JsonView::Other("null"@),
        },
{
    let key = String::from_str(PROXY_AUTH_FIELD);
    match req.payload.get(&key) {
        Some(v) => v.duplicate(),
        None => JsonValue::Other(String::from_str("null")),
    }
}

/// The server address that the client dialled: the string in the server
/// address field of the first request, as sent.
pub fn read_server_ip(req: &AuthReq) -> (r: Result<String, AuthError>)
    ensures
        match field_str(req@, SERVER_IP_AUTH_FIELD@) {
            None => r == Err::<String, AuthError>(AuthError::ServerIpRequired),
            Some(t) => r matches Ok(x) && x@ == t,
        },
{
    let key = String::from_str(SERVER_IP_AUTH_FIELD);
    match req.payload.get_str(&key) {
        None => Err(AuthError::ServerIpRequired),
        Some(text) => Ok(text),
    }
}

/// What the server does after it has sent an answer.
#[derive(Debug, Clone, Copy, PartialEq, Eq)]
pub enum AuthOutcome {
    /// The client is authenticated.
    Accepted,
    /// The client is turned away.
    Rejected,
    /// The challenge is recorded; the client's next request is awaited.
    AwaitRequest,
}

/// The responses recorded after answering `resp`: a challenge is kept, an
/// acceptance or rejection ends the handshake and is not.
pub open spec fn responses_after_answer(responses: Seq<AuthRespView>, resp: AuthRespView) -> Seq<
    AuthRespView,
> {
    match resp {
        AuthRespView::Challenge(_, _) => responses.push(resp),
        _ => responses,
    }
}

/// What answering `resp` leads to.
pub open spec fn outcome_of(resp: AuthRespView) -> AuthOutcome {
    match resp {
        AuthRespView::Accept(_) => AuthOutcome::Accepted,
        AuthRespView::Reject(_) => AuthOutcome::Rejected,
        AuthRespView::Challenge(_, _) => AuthOutcome::AwaitRequest,
    }
}

/// Takes the authenticator's answer (already sent to the client) into the
/// context, and says how the handshake goes on.
pub fn answer(ctx: &mut AuthContext, resp: AuthResp) -> (o: AuthOutcome)
    ensures
        o == outcome_of(resp@),
        responses_view(final(ctx).responses@) == responses_after_answer(
            responses_view(old(ctx).responses@),
            resp@,
        ),
        final(ctx).requests@ == old(ctx).requests@,
        final(ctx).auth_id == old(ctx).auth_id,
        final(ctx).proxy == old(ctx).proxy,
        final(ctx).client_addr == old(ctx).client_addr,
        final(ctx).client_version == old(ctx).client_version,
        final(ctx).server_ip == old(ctx).server_ip,
{
    match resp {
        AuthResp::Accept(_) => AuthOutcome::Accepted,
        AuthResp::Reject(_) => AuthOutcome::Rejected,
        AuthResp::Challenge(_) => {
            let ghost r = resp@;
            ctx.responses.push(resp);
            assert(responses_view(ctx.responses@) =~= responses_view(old(ctx).responses@).push(r));
            AuthOutcome::AwaitRequest
        },
    }
}

/// Takes the client's next request into the context.
pub fn receive(ctx: &mut AuthContext, req: AuthReq)
    ensures
        requests_view(final(ctx).requests@) == requests_view(old(ctx).requests@).push(req@),
        final(ctx).requests@.len() == old(ctx).requests@.len() + 1,
        final(ctx).responses@ == old(ctx).responses@,
        final(ctx).auth_id == old(ctx).auth_id,
        final(ctx).proxy == old(ctx).proxy,
        final(ctx).client_addr == old(ctx).client_addr,
        final(ctx).client_version == old(ctx).client_version,
        final(ctx).server_ip == old(ctx).server_ip,
{
    let ghost r = req@;
    ctx.requests.push(req);
    assert(requests_view(ctx.requests@) =~= requests_view(old(ctx).requests@).push(r));
}

/// Whether every recorded response is a challenge.
pub open spec fn all_challenges(responses: Seq<AuthResp>) -> bool {
    forall|i: int| 0 <= i < responses.len() ==> (#[trigger] responses[i])@ is Challenge
}

/// The server's side of a handshake in progress: deciding on the latest
/// request, or awaiting the client's next one after a challenge.
pub struct Handshake {
    ctx: AuthContext,
    awaiting: bool,
}

impl Handshake {
    /// The context so far.
    pub closed spec fn context(&self) -> AuthContext {
        self.ctx
    }

    /// Whether the client's next request is awaited.
    pub closed spec fn is_awaiting(&self) -> bool {
        self.awaiting
    }

    /// The handshake's invariant: every recorded response is a challenge, and
    /// the requests outnumber them by one while deciding and match them while
    /// awaiting.
    pub open spec fn wf(&self) -> bool {
        &&& all_challenges(self.context().responses@)
        &&& self.context().requests@.len() == self.context().responses@.len() + if self.is_awaiting() {
            0int
        } else {
            1int
        }
    }

    /// The handshake opened by the client's first request.
    pub fn start(
        client_version: String,
        server_ip: String,
        client_addr: String,
        req: AuthReq,
        proxy: crate::config::client::ProxyConfig,
    ) -> (h: Self)
        ensures
            h.wf(),
            !h.is_awaiting(),
            crate::auth::msg::is_uuid_v4_text(h.context().auth_id@),
            h.context().client_version == client_version,
            h.context().server_ip == server_ip,
            h.context().client_addr == client_addr,
            h.context().proxy == proxy,
            requests_view(h.context().requests@) == seq![req@],
    {
        let ctx = AuthContext::new(client_version, server_ip, client_addr, req, proxy);
        proof {
            assert(requests_view(ctx.requests@).len() == ctx.requests@.len());
        }
        Handshake { ctx, awaiting: false }
    }

    /// The context to decide on, while deciding: it holds one request more
    /// than it has challenges, and every response in it is a challenge.
    pub fn to_decide(&self) -> (c: Option<&AuthContext>)
        requires
            self.wf(),
        ensures
            self.is_awaiting() ==> c is None,
            !self.is_awaiting() ==> c == Some(&self.context()),
            c matches Some(x) ==> x.requests@.len() == x.responses@.len() + 1 && all_challenges(
                x.responses@,
            ),
    {
        if self.awaiting {
            None
        } else {
            Some(&self.ctx)
        }
    }

    /// Takes the answer (already sent to the client) while deciding, as
    /// [`answer`] does; `None`, with nothing changed, while a request is
    /// awaited.
    pub fn answer(&mut self, resp: AuthResp) -> (o: Option<AuthOutcome>)
        requires
            old(self).wf(),
        ensures
            final(self).wf(),
            old(self).is_awaiting() ==> o is None && *final(self) == *old(self),
            !old(self).is_awaiting() ==> {
                &&& o == Some(outcome_of(resp@))
                &&& final(self).is_awaiting() == (outcome_of(resp@) == AuthOutcome::AwaitRequest)
                &&& responses_view(final(self).context().responses@) == responses_after_answer(
                    responses_view(old(self).context().responses@),
                    resp@,
                )
                &&& final(self).context().requests@ == old(self).context().requests@
                &&& final(self).context().auth_id == old(self).context().auth_id
                &&& final(self).context().proxy == old(self).context().proxy
                &&& final(self).context().client_addr == old(self).context().client_addr
                &&& final(self).context().client_version == old(self).context().client_version
                &&& final(self).context().server_ip == old(self).context().server_ip
            },
    {
        if self.awaiting {
            return None;
        }
        let ghost r = resp@;
        let ghost before = self.ctx.responses@;
        let outcome = answer(&mut self.ctx, resp);
        let now_awaiting = match outcome {
            AuthOutcome::AwaitRequest => true,
            _ => false,
        };
        proof {
            if now_awaiting {
                assert(responses_view(self.ctx.responses@).len() == self.ctx.responses@.len());
                assert(responses_view(before).len() == before.len());
                assert forall|i: int| 0 <= i < self.ctx.responses@.len() implies (
                #[trigger] self.ctx.responses@[i])@ is Challenge by {
                    assert(responses_view(self.ctx.responses@)[i] == self.ctx.responses@[i]@);
                    if i < before.len() {
                        assert(responses_view(before)[i] == before[i]@);
                        assert(before[i]@ is Challenge);
                    }
                }
            } else {
                assert(responses_view(self.ctx.responses@) == responses_view(before));
                assert(responses_view(self.ctx.responses@).len() == self.ctx.responses@.len());
                assert(responses_view(before).len() == before.len());
                assert forall|i: int| 0 <= i < self.ctx.responses@.len() implies (
                #[trigger] self.ctx.responses@[i])@ is Challenge by {
                    assert(responses_view(self.ctx.responses@)[i] == self.ctx.responses@[i]@);
                    assert(responses_view(before)[i] == before[i]@);
                    assert(before[i]@ is Challenge);
                }
            }
        }
        if now_awaiting {
            self.awaiting = true;
        }
        Some(outcome)
    }

    /// Takes the client's next request while it is awaited, as [`receive`]
    /// does, and returns to deciding; `false`, with nothing changed, while
    /// deciding.
    pub fn receive(&mut self, req: AuthReq) -> (taken: bool)
        requires
            old(self).wf(),
        ensures
            final(self).wf(),
            taken == old(self).is_awaiting(),
            !taken ==> *final(self) == *old(self),
            taken ==> {
                &&& !final(self).is_awaiting()
                &&& requests_view(final(self).context().requests@) == requests_view(
                    old(self).context().requests@,
                ).push(req@)
                &&& final(self).context().responses@ == old(self).context().responses@
                &&& final(self).context().auth_id == old(self).context().auth_id
                &&& final(self).context().proxy == old(self).context().proxy
                &&& final(self).context().client_addr == old(self).context().client_addr
                &&& final(self).context().client_version == old(self).context().client_version
                &&& final(self).context().server_ip == old(self).context().server_ip
            },
    {
        if !self.awaiting {
            return false;
        }
        receive(&mut self.ctx, req);
        self.awaiting = false;
        true
    }

    /// The context, once the handshake is over.
    pub fn into_context(self) -> (ctx: AuthContext)
        ensures
            ctx == self.context(),
    {
        self.ctx
    }
}

/// The handshake alternates: while the server is deciding, it holds exactly one
/// request more than it has sent challenges; a challenge followed by the
/// client's next request restores that balance with one round more, and an
/// acceptance or a rejection ends the handshake without recording anything.
pub proof fn lemma_handshake_alternates(
    requests: Seq<crate::json::PayloadView>,
    responses: Seq<AuthRespView>,
    resp: AuthRespView,
    next: crate::json::PayloadView,
)
    requires
        requests.len() == responses.len() + 1,
    ensures
        outcome_of(resp) == AuthOutcome::AwaitRequest ==> {
            let rs = responses_after_answer(responses, resp);
            &&& rs.len() == requests.len()
            &&& requests.push(next).len() == rs.len() + 1
            &&& rs.last() == resp
        },
        outcome_of(resp) != AuthOutcome::AwaitRequest ==> responses_after_answer(responses, resp)
            == responses,
{
}

/// An acceptance authenticates the client, a rejection turns it away, and a
/// challenge, and only a challenge, is recorded and waits for the client's
/// next request.
pub proof fn lemma_outcome_by_answer(responses: Seq<AuthRespView>, resp: AuthRespView)
    ensures
        outcome_of(resp) == AuthOutcome::Accepted <==> resp is Accept,
        outcome_of(resp) == AuthOutcome::Rejected <==> resp is Reject,
        outcome_of(resp) == AuthOutcome::AwaitRequest <==> resp is Challenge,
        resp is Challenge ==> responses_after_answer(responses, resp) == responses.push(resp),
        !(resp is Challenge) ==> responses_after_answer(responses, resp) == responses,
{
}

/// A handshake with the token authenticator cannot go on forever: once the
/// client has sent more than [`MAX_ROUND`] requests, the answer turns it away
/// and nothing more is recorded.
pub proof fn lemma_token_handshake_ends(
    token: Seq<char>,
    requests: Seq<crate::json::PayloadView>,
    responses: Seq<AuthRespView>,
)
    requires
        requests.len() > MAX_ROUND,
    ensures
        token_decision(token, requests) is Some,
        outcome_of(token_decision(token, requests)->0) == AuthOutcome::Rejected,
        responses_after_answer(responses, token_decision(token, requests)->0) == responses,
{
}

} // verus!
