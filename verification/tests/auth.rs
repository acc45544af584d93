use gung::auth::msg::{AuthContext, AuthReq, AuthResp};
use gung::auth::pass::PassAuthenticator;
use gung::auth::token::TokenAuthenticator;
use gung::auth::{from, AuthError, Authenticator, ConfiguredAuthenticator};
use gung::client::{challenge_reply, first_request, on_response, ClientAuthError};
use gung::config::client::{ProxyConfig, ProxyParams, ProxyType};
use gung::config::server::{
    AuthConfig, AuthenticatorConfig, PyPluginAuthenticatorConfig, TokenAuthenticatorConfig,
};
use gung::json::{JsonValue, Payload};
use gung::server::service::{
    answer, proxy_field, read_client_version, read_server_ip, receive, AuthOutcome, Handshake,
};

fn proxy() -> ProxyConfig {
    ProxyConfig {
        proxy_type: ProxyType::Tcp,
        proxy_params: ProxyParams { remote_port: Some(8080), custom_domain: None, sub_domain: None },
    }
}

fn obj(fields: &[(&str, JsonValue)]) -> Payload {
    Payload::Object(
        fields.iter().map(|(k, v)| (k.to_string(), v.duplicate())).collect(),
    )
}

fn s(x: &str) -> JsonValue {
    JsonValue::Str(x.to_string())
}

fn ctx_with(payload: Payload) -> AuthContext {
    AuthContext::new(
        "0.1.0".to_string(),
        "127.0.0.1".to_string(),
        "127.0.0.1:5000".to_string(),
        AuthReq { payload },
        proxy(),
    )
}

fn msg_of(r: &AuthResp) -> (&'static str, String) {
    match r {
        AuthResp::Accept(a) => ("accept", a.msg.clone()),
        AuthResp::Reject(a) => ("reject", a.msg.clone()),
        AuthResp::Challenge(c) => {
            assert_eq!(c.required_fields, vec!["token".to_string()]);
            ("challenge", c.msg.clone())
        }
    }
}

#[test]
fn token_authenticator_accepts_the_right_token() {
    let a = TokenAuthenticator::new("secret".to_string());
    let ctx = ctx_with(obj(&[("token", s("secret"))]));
    let r = a.authenticate(&ctx).unwrap();
    assert_eq!(msg_of(&r), ("accept", "token is correct".to_string()));
}

#[test]
fn token_authenticator_challenges_a_missing_token() {
    let a = TokenAuthenticator::new("secret".to_string());
    let ctx = ctx_with(obj(&[("user", s("bob"))]));
    assert_eq!(msg_of(&a.authenticate(&ctx).unwrap()), ("challenge", "token is required".to_string()));
    let ctx = ctx_with(Payload::Other("[1,2]".to_string()));
    assert_eq!(msg_of(&a.authenticate(&ctx).unwrap()), ("challenge", "token is required".to_string()));
}

#[test]
fn token_authenticator_challenges_a_non_string_token() {
    let a = TokenAuthenticator::new("42".to_string());
    let ctx = ctx_with(obj(&[("token", JsonValue::Other("42".to_string()))]));
    assert_eq!(
        msg_of(&a.authenticate(&ctx).unwrap()),
        ("challenge", "token must be a string".to_string())
    );
}

#[test]
fn token_authenticator_challenges_a_wrong_token() {
    let a = TokenAuthenticator::new("secret".to_string());
    let ctx = ctx_with(obj(&[("token", s("guess"))]));
    assert_eq!(msg_of(&a.authenticate(&ctx).unwrap()), ("challenge", "token is incorrect".to_string()));
}

#[test]
fn token_authenticator_reads_the_latest_request() {
    let a = TokenAuthenticator::new("secret".to_string());
    let mut ctx = ctx_with(obj(&[("token", s("guess"))]));
    receive(&mut ctx, AuthReq { payload: obj(&[("token", s("secret"))]) });
    assert_eq!(msg_of(&a.authenticate(&ctx).unwrap()), ("accept", "token is correct".to_string()));
}

#[test]
fn token_authenticator_gives_up_after_three_rounds() {
    let a = TokenAuthenticator::new("secret".to_string());
    let mut ctx = ctx_with(obj(&[]));
    for _ in 0..2 {
        receive(&mut ctx, AuthReq { payload: obj(&[]) });
    }
    assert_eq!(ctx.round(), 3);
    assert_eq!(msg_of(&a.authenticate(&ctx).unwrap()).0, "challenge");
    receive(&mut ctx, AuthReq { payload: obj(&[("token", s("secret"))]) });
    assert_eq!(ctx.round(), 4);
    assert_eq!(msg_of(&a.authenticate(&ctx).unwrap()), ("reject", "round limit exceeded".to_string()));
}

#[test]
fn token_authenticator_needs_a_request() {
    let a = TokenAuthenticator::new("secret".to_string());
    let mut ctx = ctx_with(obj(&[]));
    ctx.requests.clear();
    assert!(matches!(a.authenticate(&ctx), Err(AuthError::NoRequest)));
}

#[test]
fn pass_authenticator_accepts() {
    let ctx = ctx_with(obj(&[]));
    let r = PassAuthenticator::new().authenticate(&ctx).unwrap();
    match r {
        AuthResp::Accept(a) => assert_eq!(a.msg, "pass"),
        _ => panic!("expected an acceptance"),
    }
}

#[test]
fn auth_context_starts_with_one_request() {
    let ctx = ctx_with(obj(&[]));
    assert_eq!(ctx.round(), 1);
    assert!(ctx.responses.is_empty());
    assert_eq!(ctx.auth_id.len(), 36);
    for (i, c) in ctx.auth_id.chars().enumerate() {
        match i {
            8 | 13 | 18 | 23 => assert_eq!(c, '-'),
            14 => assert_eq!(c, '4'),
            19 => assert!(matches!(c, '8' | '9' | 'a' | 'b')),
            _ => assert!(c.is_ascii_digit() || ('a'..='f').contains(&c)),
        }
    }
    assert_eq!(ctx.client_version(), "0.1.0");
    assert_eq!(ctx.client_addr(), "127.0.0.1:5000");
    let other = ctx_with(obj(&[]));
    assert_ne!(ctx.auth_id, other.auth_id);
}

#[test]
fn configured_authenticators() {
    let pass = AuthConfig { authenticator: AuthenticatorConfig::Pass, timeout: 30 };
    assert!(matches!(from(&pass), ConfiguredAuthenticator::Pass(_)));
    let token = AuthConfig {
        authenticator: AuthenticatorConfig::Token(TokenAuthenticatorConfig { token: "t".to_string() }),
        timeout: 30,
    };
    match from(&token) {
        ConfiguredAuthenticator::Token(a) => {
            let ctx = ctx_with(obj(&[("token", s("t"))]));
            assert_eq!(msg_of(&a.authenticate(&ctx).unwrap()).0, "accept");
        }
        _ => panic!("expected a token authenticator"),
    }
    let py = AuthConfig {
        authenticator: AuthenticatorConfig::PyPlugin(PyPluginAuthenticatorConfig {
            file_path: "auth.py".to_string(),
        }),
        timeout: 30,
    };
    assert!(matches!(from(&py), ConfiguredAuthenticator::PyPlugin(p) if p == "auth.py"));
}

#[test]
fn server_reads_the_version() {
    let req = AuthReq { payload: obj(&[("__version", s("1.2.3-beta.1+build.5"))]) };
    assert_eq!(read_client_version(&req), Ok("1.2.3-beta.1+build.5".to_string()));
    let req = AuthReq { payload: obj(&[]) };
    assert_eq!(read_client_version(&req), Err(AuthError::VersionRequired));
    let req = AuthReq { payload: obj(&[("__version", JsonValue::Other("1".to_string()))]) };
    assert_eq!(read_client_version(&req), Err(AuthError::VersionRequired));
    let req = AuthReq { payload: obj(&[("__version", s("1.0"))]) };
    assert!(matches!(read_client_version(&req), Err(AuthError::InvalidVersion(_))));
    let req = AuthReq { payload: obj(&[("__version", s("01.0.0"))]) };
    assert!(matches!(read_client_version(&req), Err(AuthError::InvalidVersion(_))));
}

#[test]
fn server_reads_the_proxy_and_server_ip() {
    let req = AuthReq {
        payload: obj(&[("__proxy", JsonValue::Other("{\"proxy_type\":\"Tcp\"}".to_string())), ("__server_ip", s("10.0.0.1"))]),
    };
    match proxy_field(&req) {
        JsonValue::Other(t) => assert_eq!(t, "{\"proxy_type\":\"Tcp\"}"),
        _ => panic!("expected JSON text"),
    }
    assert_eq!(read_server_ip(&req), Ok("10.0.0.1".to_string()));
    let empty = AuthReq { payload: obj(&[]) };
    match proxy_field(&empty) {
        JsonValue::Other(t) => assert_eq!(t, "null"),
        _ => panic!("expected null"),
    }
    assert_eq!(read_server_ip(&empty), Err(AuthError::ServerIpRequired));
}

#[test]
fn server_records_challenges_only() {
    let mut ctx = ctx_with(obj(&[]));
    let c = AuthResp::challenge("more".to_string(), vec!["token".to_string()]);
    assert_eq!(answer(&mut ctx, c), AuthOutcome::AwaitRequest);
    assert_eq!(ctx.responses.len(), 1);
    receive(&mut ctx, AuthReq { payload: obj(&[]) });
    assert_eq!(ctx.round(), 2);
    assert_eq!(answer(&mut ctx, AuthResp::reject("no".to_string())), AuthOutcome::Rejected);
    assert_eq!(answer(&mut ctx, AuthResp::accept("yes".to_string())), AuthOutcome::Accepted);
    assert_eq!(ctx.responses.len(), 1);
    assert_eq!(ctx.round(), 2);
}

#[test]
fn client_first_request_binds_the_handshake_fields() {
    let req = first_request(&None, "0.1.0".to_string(), JsonValue::Other("{}".to_string()), "1.2.3.4".to_string()).unwrap();
    assert_eq!(read_client_version(&req), Ok("0.1.0".to_string()));
    assert_eq!(read_server_ip(&req), Ok("1.2.3.4".to_string()));
    match proxy_field(&req) {
        JsonValue::Other(t) => assert_eq!(t, "{}"),
        _ => panic!("expected JSON text"),
    }
}

#[test]
fn client_first_request_overrides_user_fields() {
    let data = Some(obj(&[("__version", s("9.9.9")), ("token", s("abc"))]));
    let req = first_request(&data, "0.1.0".to_string(), JsonValue::Other("null".to_string()), "::1".to_string()).unwrap();
    assert_eq!(read_client_version(&req), Ok("0.1.0".to_string()));
    assert_eq!(req.payload.get_str(&"token".to_string()), Some("abc".to_string()));
}

#[test]
fn client_data_must_be_an_object() {
    let data = Some(Payload::Other("[1]".to_string()));
    let r = first_request(&data, "0.1.0".to_string(), JsonValue::Other("null".to_string()), "::1".to_string());
    assert!(matches!(r, Err(ClientAuthError::DataNotObject)));
}

#[test]
fn client_follows_the_responses() {
    assert!(matches!(on_response(AuthResp::accept("ok".to_string())), Ok(None)));
    match on_response(AuthResp::reject("bad".to_string())) {
        Err(ClientAuthError::Rejected(m)) => assert_eq!(m, "bad"),
        _ => panic!("expected a rejection"),
    }
    match on_response(AuthResp::challenge("more".to_string(), vec!["a".to_string(), "b".to_string()])) {
        Ok(Some(f)) => assert_eq!(f, vec!["a".to_string(), "b".to_string()]),
        _ => panic!("expected a challenge"),
    }
}

#[test]
fn challenge_reply_binds_each_answer_last_one_winning() {
    let req = challenge_reply(vec![
        ("token".to_string(), s("x")),
        ("user".to_string(), JsonValue::Other("3".to_string())),
        ("token".to_string(), s("y")),
    ]);
    assert_eq!(req.payload.get_str(&"token".to_string()), Some("y".to_string()));
    assert!(matches!(req.payload.get(&"user".to_string()), Some(JsonValue::Other(t)) if t == "3"));
    assert!(req.payload.get(&"other".to_string()).is_none());
}

#[test]
fn duplicates_are_equal_copies() {
    let r = AuthResp::challenge("m".to_string(), vec!["f".to_string()]);
    match r.duplicate() {
        AuthResp::Challenge(c) => {
            assert_eq!(c.msg, "m");
            assert_eq!(c.required_fields, vec!["f".to_string()]);
        }
        _ => panic!("expected a challenge"),
    }
    let req = AuthReq { payload: obj(&[("k", s("v"))]) };
    assert_eq!(req.duplicate().payload.get_str(&"k".to_string()), Some("v".to_string()));
}

#[test]
fn token_handshake_ends_after_the_round_limit() {
    let a = TokenAuthenticator::new("secret".to_string());
    let mut ctx = ctx_with(obj(&[]));
    let mut outcomes = Vec::new();
    loop {
        let resp = a.authenticate(&ctx).unwrap();
        let outcome = answer(&mut ctx, resp);
        outcomes.push(outcome);
        if outcome != AuthOutcome::AwaitRequest {
            break;
        }
        receive(&mut ctx, AuthReq { payload: obj(&[("token", s("guess"))]) });
    }
    assert_eq!(
        outcomes,
        vec![
            AuthOutcome::AwaitRequest,
            AuthOutcome::AwaitRequest,
            AuthOutcome::AwaitRequest,
            AuthOutcome::Rejected
        ]
    );
    assert_eq!(ctx.round(), 4);
    assert_eq!(ctx.responses.len(), 3);
}

#[test]
fn a_handshake_alternates_between_deciding_and_awaiting() {
    let a = TokenAuthenticator::new("secret".to_string());
    let mut h = Handshake::start(
        "0.1.0".to_string(),
        "127.0.0.1".to_string(),
        "127.0.0.1:5000".to_string(),
        AuthReq { payload: obj(&[]) },
        proxy(),
    );
    let mut rounds = 0;
    loop {
        let ctx = h.to_decide().unwrap();
        assert_eq!(ctx.requests.len(), ctx.responses.len() + 1);
        assert_eq!(ctx.client_addr, "127.0.0.1:5000");
        let resp = a.authenticate(ctx).unwrap();
        match h.answer(resp).unwrap() {
            AuthOutcome::AwaitRequest => {
                assert!(h.to_decide().is_none());
                assert!(h.answer(AuthResp::accept("x".to_string())).is_none());
                let token = if rounds == 1 { "secret" } else { "guess" };
                assert!(h.receive(AuthReq { payload: obj(&[("token", s(token))]) }));
                assert!(!h.receive(AuthReq { payload: obj(&[]) }));
                rounds += 1;
            }
            outcome => {
                assert_eq!(outcome, AuthOutcome::Accepted);
                break;
            }
        }
    }
    let ctx = h.into_context();
    assert_eq!(ctx.round(), 3);
    assert_eq!(ctx.responses.len(), 2);
}
