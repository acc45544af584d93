//! The authenticator that checks a shared token.

use vstd::prelude::*;

use crate::auth::msg::{AuthContext, AuthResp, AuthRespView, requests_view};
use crate::auth::{AuthError, Authenticator};
use crate::json::{JsonValue, JsonView, PayloadView};

verus! {

/// The number of requests after which the token authenticator gives up.
pub const MAX_ROUND: usize = 3;

/// Checks that the `token` field of the latest request is the configured token.
pub struct TokenAuthenticator(String);

/// The value that the `token` field of a payload holds, if it holds one.
pub open spec fn token_field(payload: PayloadView) -> Option<JsonView> {
    match payload {
        PayloadView::Object(m) => if m.contains_key("token"@) {
            Some(m["token"@])
        } else {
            None
        },
        PayloadView::Other(_) => None,
    }
}

/// The challenge that asks for the token again, with the reason `msg`.
pub open spec fn token_challenge(msg: Seq<char>) -> AuthRespView {
    AuthRespView::Challenge(msg, seq!["token"@])
}

/// What the token authenticator answers after `requests`, for the token
/// `token`; `None` when there is no request to answer.
pub open spec fn token_decision(token: Seq<char>, requests: Seq<PayloadView>) -> Option<
    AuthRespView,
> {
    if requests.len() > MAX_ROUND {
        Some(AuthRespView::Reject("round limit exceeded"@))
    } else if requests.len() == 0 {
        None
    } else {
        match token_field(requests.last()) {
            None => Some(token_challenge("token is required"@)),
            Some(JsonView::Other(_)) => Some(token_challenge("token must be a string"@)),
            Some(JsonView::Str(t)) => if t == token {
                Some(AuthRespView::Accept("token is correct"@))
            } else {
                Some(token_challenge("token is incorrect"@))
            },
        }
    }
}

/// A fresh `["token"]`.
fn token_fields() -> (v: Vec<String>)
    ensures
        crate::auth::msg::strings_view(v@) == seq!["token"@],
{
    let mut v: Vec<String> = Vec::new();
    v.push(String::from_str("token"));
    assert(crate::auth::msg::strings_view(v@) =~= seq!["token"@]);
    v
}

impl TokenAuthenticator {
    /// The authenticator that accepts exactly `token`.
    pub fn new(token: String) -> (a: Self)
        ensures
            a.token() == token@,
    {
        TokenAuthenticator(token)
    }

    /// The token that this authenticator accepts.
    pub closed spec fn token(&self) -> Seq<char> {
        self.0@
    }
}

/// A lemma used to pass from the context's requests to their views.
proof fn lemma_last_request(ctx: &AuthContext)
    requires
        ctx.requests@.len() > 0,
    ensures
        requests_view(ctx.requests@).last() == ctx.requests@.last()@,
        requests_view(ctx.requests@).len() == ctx.requests@.len(),
{
}

impl Authenticator for TokenAuthenticator {
    /// Rejects once the client has sent more than [`MAX_ROUND`] requests;
    /// otherwise accepts the right token and challenges for it in every
    /// other case.
    fn authenticate(&self, ctx: &AuthContext) -> (r: Result<AuthResp, AuthError>)
        ensures
            match token_decision(self.token(), requests_view(ctx.requests@)) {
                Some(d) => r matches Ok(resp) && resp@ == d,
                None => r == Err::<AuthResp, AuthError>(AuthError::NoRequest),
            },
    {
        let round = ctx.round();
        if round > MAX_ROUND {
            return Ok(AuthResp::reject(String::from_str("round limit exceeded")));
        }
        if round == 0 {
            return Err(AuthError::NoRequest);
        }
        let last = &ctx.requests[round - 1];
        proof {
            lemma_last_request(ctx);
        }
        let key = String::from_str("token");
        match last.payload.get(&key) {
            None => Ok(AuthResp::challenge(String::from_str("token is required"), token_fields())),
            Some(JsonValue::Other(_)) => Ok(
                AuthResp::challenge(String::from_str("token must be a string"), token_fields()),
            ),
            Some(JsonValue::Str(token)) => {
                if *token == self.0 {
                    Ok(AuthResp::accept(String::from_str("token is correct")))
                } else {
                    Ok(AuthResp::challenge(String::from_str("token is incorrect"), token_fields()))
                }
            },
        }
    }
}

/// The token authenticator gives up after [`MAX_ROUND`] (three) requests:
/// from the fourth on it rejects, whatever the client sends.
pub proof fn lemma_token_round_limit(token: Seq<char>, requests: Seq<PayloadView>)
    requires
        requests.len() > 3,
    ensures
        token_decision(token, requests) == Some(AuthRespView::Reject("round limit exceeded"@)),
{
}

/// Within the round limit, the token authenticator accepts exactly when the
/// `token` field of the latest request is the configured token, and challenges
/// for the token otherwise.
pub proof fn lemma_token_accepts_exactly(token: Seq<char>, requests: Seq<PayloadView>)
    requires
        1 <= requests.len() <= MAX_ROUND,
    ensures
        token_decision(token, requests) is Some,
        (token_decision(token, requests)->0 is Accept) <==> token_field(requests.last()) == Some(
            JsonView::Str(token),
        ),
        !(token_decision(token, requests)->0 is Accept) ==> token_decision(token, requests)->0 is Challenge,
{
}

/// What the token authenticator answers within the round limit (the first
/// three requests), by what the
/// latest request holds under `token`: the configured token is accepted with
/// `token is correct`; anything else is a challenge that asks for exactly the
/// field `token` again, saying that the token is required (no such field),
/// must be a string (another JSON value) or is incorrect (another string).
pub proof fn lemma_token_answers(token: Seq<char>, requests: Seq<PayloadView>)
    requires
        1 <= requests.len() <= 3,
    ensures
        ({
            let asked = seq!["token"@];
            let d = token_decision(token, requests);
            match requests.last() {
                PayloadView::Object(m) => if !m.contains_key("token"@) {
                    d == Some(AuthRespView::Challenge("token is required"@, asked))
                } else {
                    match m["token"@] {
                        JsonView::Str(t) => if t == token {
                            d == Some(AuthRespView::Accept("token is correct"@))
                        } else {
                            d == Some(AuthRespView::Challenge("token is incorrect"@, asked))
                        },
                        JsonView::Other(_) => d == Some(
                            AuthRespView::Challenge("token must be a string"@, asked),
                        ),
                    }
                },
                PayloadView::Other(_) => d == Some(
                    AuthRespView::Challenge("token is required"@, asked),
                ),
            }
        }),
        token_decision(token, requests) matches Some(AuthRespView::Challenge(_, f)) ==> f
            == seq!["token"@],
{
}

} // verus!
