//! The client's part of the authentication handshake.
//!
//! The client sends a first request made of its own data and three fields
//! the server needs, then follows the server's answers: it stops on an
//! acceptance, fails on a rejection, and answers a challenge with the fields
//! it asks for. Prompting the user and talking to the server are done by the
//! caller; this module builds the requests and decides.

use vstd::prelude::*;

use crate::auth::msg::{
    AuthReq, AuthResp, AuthRespView, PROXY_AUTH_FIELD, SERVER_IP_AUTH_FIELD, VERSION_AUTH_FIELD,
    strings_view,
};
use crate::json::{JsonValue, JsonView, Payload, PayloadView, fields_map};
use crate::protocol::ServerCommand;

verus! {

/// Why the client's handshake failed.
#[derive(Debug, PartialEq, Eq)]
pub enum ClientAuthError {
    /// The extra data given on the command line is not a JSON object.
    DataNotObject,
    /// The server turned the client away, with this message.
    Rejected(String),
}

/// The fields of the first request: the client's data (or nothing), with the
/// version, the requested proxy and the dialled server address bound in it.
pub open spec fn first_request_view(
    base: Map<Seq<char>, JsonView>,
    version: Seq<char>,
    proxy: JsonView,
    server_ip: Seq<char>,
) -> PayloadView {
    PayloadView::Object(
        base.insert(VERSION_AUTH_FIELD@, JsonView::Str(version)).insert(
            PROXY_AUTH_FIELD@,
            proxy,
        ).insert(SERVER_IP_AUTH_FIELD@, JsonView::Str(server_ip)),
    )
}

/// The first request of the handshake. The client's `data`, when given, must
/// be a JSON object; the version, the proxy (as JSON) and the server address
/// are then bound in it, overriding fields of the same names.
pub fn first_request(
    data: &Option<Payload>,
    version: String,
    proxy: JsonValue,
    server_ip: String,
) -> (r: Result<AuthReq, ClientAuthError>)
    ensures
        match data {
            Some(d) => match d@ {
                PayloadView::Object(m) => r matches Ok(req) && req@ == first_request_view(
                    m,
                    version@,
                    proxy@,
                    server_ip@,
                ),
                PayloadView::Other(_) => r == Err::<AuthReq, ClientAuthError>(
                    ClientAuthError::DataNotObject,
                ),
            },
            None => r matches Ok(req) && req@ == first_request_view(
                Map::empty(),
                version@,
                proxy@,
                server_ip@,
            ),
        },
{
    let mut payload = match data {
        Some(d) => {
            if !d.is_object() {
                return Err(ClientAuthError::DataNotObject);
            }
            d.duplicate()
        },
        None => Payload::empty_object(),
    };
    payload.insert(String::from_str(VERSION_AUTH_FIELD), JsonValue::Str(version));
    payload.insert(String::from_str(PROXY_AUTH_FIELD), proxy);
    payload.insert(String::from_str(SERVER_IP_AUTH_FIELD), JsonValue::Str(server_ip));
    Ok(AuthReq { payload })
}

/// How the client goes on after a response: `Ok(None)` when it is let in,
/// `Ok(Some(fields))` when it must send these fields, and the rejection's
/// message as an error when it is turned away.
pub fn on_response(resp: AuthResp) -> (r: Result<Option<Vec<String>>, ClientAuthError>)
    ensures
        match resp@ {
            AuthRespView::Accept(_) => r matches Ok(None),
            AuthRespView::Reject(msg) => r matches Err(ClientAuthError::Rejected(m)) && m@ == msg,
            AuthRespView::Challenge(_, fields) => r matches Ok(Some(f)) && strings_view(f@)
                == fields,
        },
{
    match resp {
        AuthResp::Accept(_) => Ok(None),
        AuthResp::Reject(r) => Err(ClientAuthError::Rejected(r.msg)),
        AuthResp::Challenge(c) => Ok(Some(c.required_fields)),
    }
}

/// The request that answers a challenge: an object binding each answered
/// field, a later answer overriding an earlier one for the same field.
pub fn challenge_reply(answers: Vec<(String, JsonValue)>) -> (r: AuthReq)
    ensures
        r@ == PayloadView::Object(fields_map(answers@)),
{
    let mut payload = Payload::empty_object();
    let mut i: usize = 0;
    while i < answers.len()
        invariant
            i <= answers@.len(),
            payload@ == PayloadView::Object(fields_map(answers@.take(i as int))),
        decreases answers@.len() - i,
    {
        payload.insert(answers[i].0.clone(), answers[i].1.duplicate());
        i = i + 1;
        assert(answers@.take(i as int).drop_last() =~= answers@.take(i - 1));
    }
    assert(answers@.take(answers@.len() as int) =~= answers@);
    AuthReq { payload }
}

/// What a running client has just observed on its connection to the server.
pub enum ConnectionEvent<S> {
    /// The server opened a data channel for a remote request.
    DataChannel(S),
    /// Accepting a data channel failed.
    AcceptFailed,
    /// The server's control stream ended.
    ServerClosed,
    /// Reading the server's control stream failed.
    ServerError,
    /// The server sent a command.
    Command(ServerCommand),
    /// The server has been silent for the keepalive timeout.
    PingTimeout,
}

/// What a running client does next.
pub enum ConnectionAction<S> {
    /// Forward the data channel to the local service.
    Forward(S),
    /// Nothing; keep running.
    Continue,
    /// Answer the server's ping with an acknowledgement.
    SendAck,
    /// Close the connection.
    Stop,
}

/// Whether `event` shows that the server is alive, which keeps it from being
/// given up: a data channel it opened or a command from it does; failures,
/// the end of the control stream and the timeout do not.
pub fn heard_from_server<S>(event: &ConnectionEvent<S>) -> (b: bool)
    ensures
        b == (*event is DataChannel || *event is Command),
{
    match event {
        ConnectionEvent::DataChannel(_) => true,
        ConnectionEvent::Command(_) => true,
        _ => false,
    }
}

/// A running client's answer to `event`: data channels are forwarded, pings
/// are acknowledged, the start notice changes nothing, and every failure, the
/// end of the control stream, a shutdown or failure notice from the server,
/// and a keepalive timeout close the connection.
pub fn next_action<S>(event: ConnectionEvent<S>) -> (a: ConnectionAction<S>)
    ensures
        match event {
            ConnectionEvent::DataChannel(s) => a == ConnectionAction::Forward(s),
            ConnectionEvent::Command(ServerCommand::ForwardingStarted(_)) => a is Continue,
            ConnectionEvent::Command(ServerCommand::Ping) => a is SendAck,
            _ => a is Stop,
        },
{
    match event {
        ConnectionEvent::DataChannel(s) => ConnectionAction::Forward(s),
        ConnectionEvent::Command(ServerCommand::ForwardingStarted(_)) => ConnectionAction::Continue,
        ConnectionEvent::Command(ServerCommand::Ping) => ConnectionAction::SendAck,
        ConnectionEvent::Command(ServerCommand::ForwardingShutdown) => ConnectionAction::Stop,
        ConnectionEvent::Command(ServerCommand::ForwardingFailed(_)) => ConnectionAction::Stop,
        ConnectionEvent::AcceptFailed => ConnectionAction::Stop,
        ConnectionEvent::ServerClosed => ConnectionAction::Stop,
        ConnectionEvent::ServerError => ConnectionAction::Stop,
        ConnectionEvent::PingTimeout => ConnectionAction::Stop,
    }
}

/// What the client writes into its first request is what the server reads
/// from it: the version and server address come back as the strings sent,
/// and the proxy field holds the proxy sent.
pub proof fn lemma_first_request_read_back(
    base: Map<Seq<char>, JsonView>,
    version: Seq<char>,
    proxy: JsonView,
    server_ip: Seq<char>,
)
    ensures
        crate::json::field_str(first_request_view(base, version, proxy, server_ip), VERSION_AUTH_FIELD@)
            == Some(version),
        crate::json::field_str(first_request_view(base, version, proxy, server_ip), SERVER_IP_AUTH_FIELD@)
            == Some(server_ip),
        first_request_view(base, version, proxy, server_ip)->Object_0[PROXY_AUTH_FIELD@] == proxy,
{
    reveal_strlit("__version");
    reveal_strlit("__proxy");
    reveal_strlit("__server_ip");
    assert(VERSION_AUTH_FIELD@ == "__version"@);
    assert(PROXY_AUTH_FIELD@ == "__proxy"@);
    assert(SERVER_IP_AUTH_FIELD@ == "__server_ip"@);
    assert("__version"@[2] != "__proxy"@[2]);
    assert(VERSION_AUTH_FIELD@ != PROXY_AUTH_FIELD@);
    assert("__version"@.len() != "__server_ip"@.len());
    assert(VERSION_AUTH_FIELD@ != SERVER_IP_AUTH_FIELD@);
    assert(PROXY_AUTH_FIELD@ != SERVER_IP_AUTH_FIELD@);
}

/// The client's own data reaches the server untouched: every field of it
/// other than the three that the client binds is in the first request, with
/// its value, and the request holds no other field besides those three.
pub proof fn lemma_first_request_keeps_data(
    base: Map<Seq<char>, JsonView>,
    version: Seq<char>,
    proxy: JsonView,
    server_ip: Seq<char>,
    key: Seq<char>,
)
    requires
        key != VERSION_AUTH_FIELD@,
        key != PROXY_AUTH_FIELD@,
        key != SERVER_IP_AUTH_FIELD@,
    ensures
        first_request_view(base, version, proxy, server_ip)->Object_0.contains_key(key)
            <==> base.contains_key(key),
        base.contains_key(key) ==> first_request_view(base, version, proxy, server_ip)->Object_0[key]
            == base[key],
{
}

} // verus!
