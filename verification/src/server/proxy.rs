//! Proxies and gateways.
//!
//! A gateway listens on one port of the server and hands each remote request
//! to its proxy; a proxy forwards the requests over the client's logical
//! connection and watches the client with keepalive pings. Gateways are kept
//! in a table keyed by their port: a client that names the port of a running
//! gateway joins it, any other client gets a new gateway on a port taken from
//! the pool, and the port goes back to the pool when the gateway closes.
//! The listening, forwarding and timing are done by the caller; this module
//! decides.

use vstd::prelude::*;

use std::collections::HashMap;

use crate::config::client::{ProxyConfig, ProxyParams};
use crate::config::is_digit;
use crate::protocol::ClientCommand;
use crate::server::port::{Port, PortError, PortManager, alloc_port};

verus! {

broadcast use vstd::std_specs::hash::group_hash_axioms;

/// The proxy that forwards raw TCP streams.
pub struct TcpProxy {}

/// The proxy that forwards HTTP requests.
pub struct HttpProxy {}

impl TcpProxy {
    /// A TCP proxy; every client configuration yields one.
    pub fn from_client_config(_config: &ProxyConfig) -> (r: Result<TcpProxy, ()>)
        ensures
            r is Ok,
    {
        Ok(TcpProxy {})
    }
}

impl HttpProxy {
    /// An HTTP proxy; every client configuration yields one.
    pub fn from_client_config(_config: &ProxyConfig) -> (r: Result<HttpProxy, ()>)
        ensures
            r is Ok,
    {
        Ok(HttpProxy {})
    }
}

/// What a running proxy has just observed.
pub enum ProxyEvent<R> {
    /// Its gateway handed it a remote request.
    Request(R),
    /// The client's control stream ended or failed.
    ClientClosed,
    /// The client sent a command.
    Command(ClientCommand),
    /// It is time to ping the client.
    PingTick,
    /// The server closes the proxy.
    ServerShutdown,
    /// The client has been silent for the keepalive timeout.
    PingTimeout,
}

/// What a running proxy does next.
pub enum ProxyAction<R> {
    /// Open a data channel to the client and forward the request over it.
    Forward(R),
    /// Nothing; keep running.
    Continue,
    /// Send a ping to the client.
    SendPing,
    /// Report the proxy (by its identifier) as closed to its gateway and stop.
    Shutdown(String),
}

/// A running proxy's answer to `event`: requests are forwarded, pings go out
/// on the ticker, an acknowledgement changes nothing, and a client shutdown,
/// a closed control stream, a server shutdown or a keepalive timeout close
/// the proxy.
pub fn next_action<R>(proxy_id: &String, event: ProxyEvent<R>) -> (a: ProxyAction<R>)
    ensures
        match event {
            ProxyEvent::Request(r) => a == ProxyAction::Forward(r),
            ProxyEvent::Command(ClientCommand::Ack) => a is Continue,
            ProxyEvent::PingTick => a is SendPing,
            _ => a matches ProxyAction::Shutdown(id) && id@ == proxy_id@,
        },
{
    match event {
        ProxyEvent::Request(r) => ProxyAction::Forward(r),
        ProxyEvent::Command(ClientCommand::Ack) => ProxyAction::Continue,
        ProxyEvent::PingTick => ProxyAction::SendPing,
        ProxyEvent::Command(ClientCommand::ClientShutdown) => ProxyAction::Shutdown(proxy_id.clone()),
        ProxyEvent::ClientClosed => ProxyAction::Shutdown(proxy_id.clone()),
        ProxyEvent::ServerShutdown => ProxyAction::Shutdown(proxy_id.clone()),
        ProxyEvent::PingTimeout => ProxyAction::Shutdown(proxy_id.clone()),
    }
}

/// Whether `event` shows that the client is alive, which keeps it from being
/// given up: a command from it does. Remote requests, the ticker, a closed
/// stream and the server's own decisions do not.
pub fn heard_from_client<R>(event: &ProxyEvent<R>) -> (b: bool)
    ensures
        b == (*event is Command),
{
    match event {
        ProxyEvent::Command(_) => true,
        _ => false,
    }
}

/// What a gateway keeps of the proxy it serves: the proxy's identifier, the
/// channel that hands it requests, and the channel that tells it to stop.
pub struct ProxyHandle<Tx, Stop> {
    pub proxy_id: String,
    pub req_tx: Tx,
    pub server_shutdown_tx: Stop,
}

/// The map that a list of routes denotes: each route binds its key, a later
/// route overriding an earlier one with the same key.
pub open spec fn routes_map<H>(routes: Seq<(String, H)>) -> Map<Seq<char>, H>
    decreases routes.len(),
{
    if routes.len() == 0 {
        Map::empty()
    } else {
        routes_map(routes.drop_last()).insert(routes.last().0@, routes.last().1)
    }
}

/// Whether no two routes share a key.
pub open spec fn keys_distinct<H>(routes: Seq<(String, H)>) -> bool {
    forall|i: int, j: int|
        0 <= i < routes.len() && 0 <= j < routes.len() && i != j ==> #[trigger] routes[i].0@
            != #[trigger] routes[j].0@
}

proof fn lemma_routes_no_key<H>(routes: Seq<(String, H)>, key: Seq<char>)
    requires
        forall|j: int| 0 <= j < routes.len() ==> (#[trigger] routes[j]).0@ != key,
    ensures
        !routes_map(routes).contains_key(key),
    decreases routes.len(),
{
    if routes.len() > 0 {
        lemma_routes_no_key(routes.drop_last(), key);
    }
}

proof fn lemma_routes_at<H>(routes: Seq<(String, H)>, i: int)
    requires
        keys_distinct(routes),
        0 <= i < routes.len(),
    ensures
        routes_map(routes).contains_key(routes[i].0@),
        routes_map(routes)[routes[i].0@] == routes[i].1,
    decreases routes.len(),
{
    if i < routes.len() - 1 {
        let d = routes.drop_last();
        assert(keys_distinct(d)) by {
            assert forall|a: int, b: int| 0 <= a < d.len() && 0 <= b < d.len() && a != b implies d[a].0@
                != d[b].0@ by {
                assert(d[a] == routes[a] && d[b] == routes[b]);
            }
        }
        assert(d[i] == routes[i]);
        lemma_routes_at(d, i);
        assert(routes[routes.len() - 1].0@ != routes[i].0@);
    }
}

proof fn lemma_routes_remove<H>(routes: Seq<(String, H)>, i: int)
    requires
        keys_distinct(routes),
        0 <= i < routes.len(),
    ensures
        routes_map(routes.remove(i)) == routes_map(routes).remove(routes[i].0@),
        keys_distinct(routes.remove(i)),
    decreases routes.len(),
{
    let n = routes.len();
    let d = routes.drop_last();
    assert(keys_distinct(d)) by {
        assert forall|a: int, b: int| 0 <= a < d.len() && 0 <= b < d.len() && a != b implies d[a].0@
            != d[b].0@ by {
            assert(d[a] == routes[a] && d[b] == routes[b]);
        }
    }
    let r = routes.remove(i);
    assert(keys_distinct(r)) by {
        assert forall|a: int, b: int| 0 <= a < r.len() && 0 <= b < r.len() && a != b implies r[a].0@
            != r[b].0@ by {
            let a2 = if a < i { a } else { a + 1 };
            let b2 = if b < i { b } else { b + 1 };
            assert(r[a] == routes[a2] && r[b] == routes[b2]);
        }
    }
    if i == n - 1 {
        assert(r =~= d);
        assert forall|j: int| 0 <= j < d.len() implies (#[trigger] d[j]).0@ != routes[i].0@ by {
            assert(d[j] == routes[j]);
        }
        lemma_routes_no_key(d, routes[i].0@);
        assert(routes_map(r) =~= routes_map(routes).remove(routes[i].0@));
    } else {
        lemma_routes_remove(d, i);
        assert(r =~= d.remove(i).push(routes.last()));
        assert(r.drop_last() =~= d.remove(i));
        assert(r.last() == routes.last());
        assert(d[i] == routes[i]);
        assert(routes[n - 1].0@ != routes[i].0@);
        assert(routes.last() == routes[n - 1]);
        let kl = routes.last().0@;
        let ki = routes[i].0@;
        assert(routes_map(r) == routes_map(d.remove(i)).insert(kl, routes.last().1));
        assert(routes_map(routes) == routes_map(d).insert(kl, routes.last().1));
        assert(routes_map(r) =~= routes_map(routes).remove(ki));
    }
}

/// The proxies that a gateway serves, by route: the host that an HTTP request
/// names, or the empty route, which takes a TCP gateway's streams and the
/// HTTP requests of hosts that have no route of their own.
pub struct GatewaySlot<Tx, Stop> {
    routes: Vec<(String, ProxyHandle<Tx, Stop>)>,
}

/// The handle that a request for `host` goes to: the route of `host`, or else
/// the empty route.
pub open spec fn routed<H>(held: Map<Seq<char>, H>, host: Seq<char>) -> Option<H> {
    if held.contains_key(host) {
        Some(held[host])
    } else if held.contains_key(Seq::<char>::empty()) {
        Some(held[Seq::<char>::empty()])
    } else {
        None
    }
}

/// A host with a route of its own is served by it, even where an empty route
/// exists; any other host goes to the empty route, and without one to no proxy.
pub proof fn lemma_own_route_first<H>(held: Map<Seq<char>, H>, host: Seq<char>)
    ensures
        held.contains_key(host) ==> routed(held, host) == Some(held[host]),
        !held.contains_key(host) && held.contains_key(Seq::<char>::empty()) ==> routed(held, host)
            == Some(held[Seq::<char>::empty()]),
        !held.contains_key(host) && !held.contains_key(Seq::<char>::empty()) ==> routed(
            held,
            host,
        ) is None,
{
}

impl<Tx, Stop> GatewaySlot<Tx, Stop> {
    /// The handle served on each route: the proxy's identifier and both of its
    /// channels.
    pub closed spec fn held(&self) -> Map<Seq<char>, ProxyHandle<Tx, Stop>> {
        routes_map(self.routes@)
    }

    /// The slot's invariant: one handle per route.
    pub closed spec fn wf(&self) -> bool {
        keys_distinct(self.routes@)
    }

    /// A gateway that serves no proxy yet.
    pub fn new() -> (s: Self)
        ensures
            s.wf(),
            s.held() == Map::<Seq<char>, ProxyHandle<Tx, Stop>>::empty(),
    {
        GatewaySlot { routes: Vec::new() }
    }

    /// The position of the route `key`, if there is one.
    fn find(&self, key: &String) -> (i: Option<usize>)
        requires
            self.wf(),
        ensures
            match i {
                Some(i) => i < self.routes@.len() && self.routes@[i as int].0@ == key@,
                None => forall|j: int|
                    0 <= j < self.routes@.len() ==> (#[trigger] self.routes@[j]).0@ != key@,
            },
    {
        let mut i: usize = 0;
        while i < self.routes.len()
            invariant
                i <= self.routes@.len(),
                forall|j: int| 0 <= j < i ==> (#[trigger] self.routes@[j]).0@ != key@,
            decreases self.routes@.len() - i,
        {
            if self.routes[i].0 == *key {
                return Some(i);
            }
            i = i + 1;
        }
        None
    }

    /// Serves the proxy of `handle` on `route`, in place of any proxy served
    /// there before.
    pub fn add_proxy(&mut self, route: String, handle: ProxyHandle<Tx, Stop>)
        requires
            old(self).wf(),
        ensures
            final(self).wf(),
            final(self).held() == old(self).held().insert(route@, handle),
    {
        if let Some(i) = self.find(&route) {
            proof {
                lemma_routes_remove(self.routes@, i as int);
            }
            let _ = self.routes.remove(i);
        }
        let ghost before = self.routes@;
        assert forall|j: int| 0 <= j < before.len() implies (#[trigger] before[j]).0@ != route@ by {
            if before[j].0@ == route@ {
                lemma_routes_at(before, j);
            }
        }
        self.routes.push((route, handle));
        assert(self.routes@.drop_last() =~= before);
        assert(keys_distinct(self.routes@)) by {
            assert forall|a: int, b: int|
                0 <= a < self.routes@.len() && 0 <= b < self.routes@.len() && a != b implies self.routes@[a].0@
                != self.routes@[b].0@ by {
                if a < before.len() && b < before.len() {
                    assert(self.routes@[a] == before[a] && self.routes@[b] == before[b]);
                } else if a < before.len() {
                    assert(self.routes@[a] == before[a]);
                } else {
                    assert(self.routes@[b] == before[b]);
                }
            }
        }
        assert(self.held() =~= old(self).held().insert(route@, handle));
    }

    /// The handle that a request for `host` goes to.
    pub fn route_for(&self, host: &String) -> (h: Option<&ProxyHandle<Tx, Stop>>)
        requires
            self.wf(),
        ensures
            match routed(self.held(), host@) {
                Some(x) => h == Some(&x),
                None => h is None,
            },
    {
        let any = String::new();
        let found = match self.find(host) {
            Some(i) => Some(i),
            None => {
                proof {
                    lemma_routes_no_key(self.routes@, host@);
                }
                self.find(&any)
            },
        };
        match found {
            Some(i) => {
                proof {
                    lemma_routes_at(self.routes@, i as int);
                }
                Some(&self.routes[i].1)
            },
            None => {
                proof {
                    lemma_routes_no_key(self.routes@, any@);
                }
                None
            },
        }
    }

    /// Stops serving the proxy `proxy_id` on `route` and hands back its
    /// handle, so that the proxy can be told to stop; nothing changes when
    /// `route` serves another proxy or none.
    pub fn remove_proxy(&mut self, route: &String, proxy_id: &String) -> (h: Option<ProxyHandle<Tx, Stop>>)
        requires
            old(self).wf(),
        ensures
            final(self).wf(),
            if old(self).held().contains_key(route@) && old(self).held()[route@].proxy_id@
                == proxy_id@ {
                h == Some(old(self).held()[route@]) && final(self).held() == old(self).held().remove(
                    route@,
                )
            } else {
                h is None && final(self).held() == old(self).held()
            },
    {
        match self.find(route) {
            Some(i) => {
                proof {
                    lemma_routes_at(self.routes@, i as int);
                }
                if self.routes[i].1.proxy_id == *proxy_id {
                    proof {
                        lemma_routes_remove(self.routes@, i as int);
                    }
                    let (_, handle) = self.routes.remove(i);
                    Some(handle)
                } else {
                    None
                }
            },
            None => {
                proof {
                    lemma_routes_no_key(self.routes@, route@);
                }
                None
            },
        }
    }

    /// Whether the gateway serves no proxy.
    pub fn is_empty(&self) -> (b: bool)
        requires
            self.wf(),
        ensures
            b == (self.held() == Map::<Seq<char>, ProxyHandle<Tx, Stop>>::empty()),
    {
        if self.routes.len() == 0 {
            assert(self.held() =~= Map::<Seq<char>, ProxyHandle<Tx, Stop>>::empty());
            true
        } else {
            proof {
                lemma_routes_at(self.routes@, 0);
            }
            assert(self.held().contains_key(self.routes@[0].0@));
            false
        }
    }

    /// A client reported its proxy as closed: the gateway stops serving it,
    /// hands back its handle, and, serving nothing any more, gives up its
    /// port, which is returned so that the gateway can be closed.
    pub fn on_client_shutdown(&mut self, route: &String, proxy_id: &String, port: u16) -> (r: (
        Option<ProxyHandle<Tx, Stop>>,
        Option<u16>,
    ))
        requires
            old(self).wf(),
        ensures
            final(self).wf(),
            if old(self).held().contains_key(route@) && old(self).held()[route@].proxy_id@
                == proxy_id@ {
                r.0 == Some(old(self).held()[route@]) && final(self).held() == old(
                    self,
                ).held().remove(route@)
            } else {
                r.0 is None && final(self).held() == old(self).held()
            },
            r.1 == (if final(self).held() == Map::<Seq<char>, ProxyHandle<Tx, Stop>>::empty() {
                Some(port)
            } else {
                None
            }),
    {
        let handle = self.remove_proxy(route, proxy_id);
        if self.is_empty() {
            (handle, Some(port))
        } else {
            (handle, None)
        }
    }
}

/// The route of an HTTP proxy: its custom domain, or else its sub-domain
/// under the server's base domain, or else the empty route, which takes the
/// requests of every host that has no route of its own.
pub open spec fn http_route_of(params: ProxyParams, base_domain: Seq<char>) -> Seq<char> {
    match params.custom_domain {
        Some(d) => d@,
        None => match params.sub_domain {
            Some(sub) => sub@ + "."@ + base_domain,
            None => Seq::empty(),
        },
    }
}

/// The route on which an HTTP gateway serves a proxy with `params`.
pub fn http_route(params: &ProxyParams, base_domain: &String) -> (r: String)
    ensures
        r@ == http_route_of(*params, base_domain@),
{
    match &params.custom_domain {
        Some(d) => d.clone(),
        None => match &params.sub_domain {
            Some(sub) => {
                let with_dot = sub.clone().concat(".");
                with_dot.concat(base_domain.as_str())
            },
            None => String::new(),
        },
    }
}

/// Whether `a` ends in `:` and a port number after position `i`: `a[i]` is
/// the colon and every character after it is a digit, of which there is one
/// at least.
pub open spec fn port_suffix_at(a: Seq<char>, i: int) -> bool {
    &&& 0 <= i
    &&& i + 1 < a.len()
    &&& a[i] == ':'
    &&& forall|j: int| i < j < a.len() ==> is_digit(#[trigger] a[j])
}

/// The host that an HTTP authority (a `Host` header) names: the text without
/// its `:port` suffix, if it has one.
pub open spec fn host_of(a: Seq<char>) -> Seq<char> {
    if exists|i: int| port_suffix_at(a, i) {
        a.take(choose|i: int| port_suffix_at(a, i))
    } else {
        a
    }
}

/// A `Host` header of the form `host:port`, with a port of decimal digits,
/// names `host`, whatever `host` itself holds.
pub proof fn lemma_host_strips_port(h: Seq<char>, port: Seq<char>)
    requires
        port.len() >= 1,
        forall|j: int| 0 <= j < port.len() ==> '0' <= #[trigger] port[j] && port[j] <= '9',
    ensures
        host_of(h + seq![':'] + port) == h,
{
    let a = h + seq![':'] + port;
    let k = h.len() as int;
    assert forall|j: int| k < j < a.len() implies is_digit(#[trigger] a[j]) by {
        assert(a[j] == port[j - k - 1]);
    }
    assert(port_suffix_at(a, k));
    let c = choose|c: int| port_suffix_at(a, c);
    if c < k {
        assert(is_digit(a[k]));
    } else if c > k {
        assert(a[c] == port[c - k - 1]);
    }
    assert(a.take(k) =~= h);
}

/// A `Host` header without a colon names itself.
pub proof fn lemma_host_without_port(a: Seq<char>)
    requires
        !a.contains(':'),
    ensures
        host_of(a) == a,
{
    assert forall|i: int| !port_suffix_at(a, i) by {
        if port_suffix_at(a, i) {
            assert(a[i] == ':');
        }
    }
}

/// Whether the character at `i` is a decimal digit.
fn digit_at(s: &str, i: usize) -> (b: bool)
    requires
        i < s@.len(),
    ensures
        b == is_digit(s@[i as int]),
{
    let c = s.get_char(i);
    '0' <= c && c <= '9'
}

/// The host that a request's `Host` header names.
pub fn request_host(authority: &str) -> (h: String)
    ensures
        h@ == host_of(authority@),
{
    let ghost a = authority@;
    let len = authority.unicode_len();
    let mut k = len;
    while k > 0 && digit_at(authority, k - 1)
        invariant
            k <= len,
            a == authority@,
            len == a.len(),
            forall|j: int| k <= j < len ==> is_digit(#[trigger] a[j]),
        decreases k,
    {
        k = k - 1;
    }
    if k > 0 && k < len && authority.get_char(k - 1) == ':' {
        proof {
            let i = (k - 1) as int;
            assert(port_suffix_at(a, i));
            let c = choose|c: int| port_suffix_at(a, c);
            if c > i {
                assert(is_digit(a[c]));
            } else if c < i {
                assert(is_digit(a[i]));
            }
        }
        authority.substring_char(0, k - 1).to_string()
    } else {
        assert forall|i: int| !port_suffix_at(a, i) by {
            if port_suffix_at(a, i) {
                if i >= k {
                    assert(is_digit(a[i]));
                } else if i < k - 1 {
                    assert(is_digit(a[k - 1]));
                }
            }
        }
        authority.to_string()
    }
}

/// The running gateways, by the port they listen on, and the pool of ports
/// that new gateways take theirs from.
pub struct GatewayTable<G> {
    gateways: HashMap<u16, G>,
    ports: PortManager,
}

/// Where a new proxy goes.
#[derive(Debug, PartialEq, Eq)]
pub enum GatewayChoice {
    /// Join the running gateway on this port.
    Existing(u16),
    /// Open a new gateway on this port, just taken from the pool.
    New(Port),
}

/// No port is both held by a gateway and free in the pool.
pub open spec fn ports_held(gateway_ports: Set<u16>, free: Set<u16>) -> bool {
    forall|p: u16| gateway_ports.contains(p) ==> !free.contains(p)
}

impl<G> GatewayTable<G> {
    /// The gateway on each port.
    pub closed spec fn gateway_map(&self) -> Map<u16, G> {
        self.gateways@
    }

    /// The ports on which gateways run.
    pub open spec fn ports(&self) -> Set<u16> {
        self.gateway_map().dom()
    }

    /// The ports of the pool that are free.
    pub closed spec fn free(&self) -> Set<u16> {
        self.ports.free()
    }

    /// The table's invariant: the port of every running gateway is out of the
    /// pool.
    pub open spec fn wf(&self) -> bool {
        ports_held(self.ports(), self.free())
    }

    /// A table without gateways, over the pool `ports`.
    pub fn new(ports: PortManager) -> (t: Self)
        ensures
            t.gateway_map() == Map::<u16, G>::empty(),
            t.free() == ports.free(),
            t.wf(),
    {
        GatewayTable { gateways: HashMap::new(), ports }
    }

    /// The gateway on the port that the client named, if it runs one.
    pub fn lookup(&self, pointed_port: Option<u16>) -> (g: Option<&G>)
        ensures
            match pointed_port {
                Some(p) => if self.gateway_map().contains_key(p) {
                    g == Some(&self.gateway_map()[p])
                } else {
                    g is None
                },
                None => g is None,
            },
    {
        match pointed_port {
            Some(port) => self.gateways.get(&port),
            None => None,
        }
    }

    /// Records the new gateway on `port`; the port leaves the pool if it is
    /// still there.
    pub fn insert(&mut self, port: u16, gateway: G)
        requires
            old(self).wf(),
        ensures
            final(self).gateway_map() == old(self).gateway_map().insert(port, gateway),
            final(self).free() == old(self).free().remove(port),
            final(self).wf(),
    {
        self.gateways.insert(port, gateway);
        let _ = self.ports.alloc_port(Some(port));
        assert(self.free() =~= old(self).free().remove(port));
    }

    /// Closes the gateway on `port`, handing it back, and returns the port to
    /// the pool when a gateway ran there.
    pub fn remove(&mut self, port: u16) -> (g: Option<G>)
        requires
            old(self).wf(),
        ensures
            final(self).gateway_map() == old(self).gateway_map().remove(port),
            match g {
                Some(x) => old(self).gateway_map().contains_key(port) && x == old(
                    self,
                ).gateway_map()[port] && final(self).free() == old(self).free().insert(port),
                None => !old(self).gateway_map().contains_key(port) && final(self).free() == old(
                    self,
                ).free(),
            },
            final(self).wf(),
    {
        let g = self.gateways.remove(&port);
        if g.is_some() {
            self.ports.dealloc(port);
        }
        g
    }

    /// Gives back a port that was taken for a gateway that could not be
    /// opened; a port on which a gateway runs stays out of the pool.
    pub fn release(&mut self, port: u16)
        requires
            old(self).wf(),
        ensures
            final(self).gateway_map() == old(self).gateway_map(),
            final(self).free() == if old(self).ports().contains(port) {
                old(self).free()
            } else {
                old(self).free().insert(port)
            },
            final(self).wf(),
    {
        if !self.gateways.contains_key(&port) {
            self.ports.dealloc(port);
        }
    }

    /// Decides where a new proxy goes: to the running gateway on the port the
    /// client named, if there is one, or else to a new gateway on a port taken
    /// from the pool (the named one, or a random free one), on which no
    /// gateway runs.
    pub fn choose_gateway(&mut self, pointed_port: Option<u16>) -> (r: Result<
        GatewayChoice,
        PortError,
    >)
        requires
            old(self).wf(),
        ensures
            final(self).gateway_map() == old(self).gateway_map(),
            final(self).wf(),
            match pointed_port {
                Some(p) => if old(self).ports().contains(p) {
                    r == Ok::<GatewayChoice, PortError>(GatewayChoice::Existing(p))
                        && final(self).free() == old(self).free()
                } else if old(self).free().contains(p) {
                    r == Ok::<GatewayChoice, PortError>(GatewayChoice::New(Port(p)))
                        && final(self).free() == old(self).free().remove(p)
                } else {
                    r == Err::<GatewayChoice, PortError>(PortError::PortNotFree(p))
                        && final(self).free() == old(self).free()
                },
                None => if old(self).free() == Set::<u16>::empty() {
                    r == Err::<GatewayChoice, PortError>(PortError::NoFreePort) && final(self).free()
                        == old(self).free()
                } else {
                    r matches Ok(GatewayChoice::New(q)) && old(self).free().contains(q.0)
                        && final(self).free() == old(self).free().remove(q.0)
                },
            },
            r matches Ok(GatewayChoice::New(q)) ==> !old(self).ports().contains(q.0),
    {
        if let Some(port) = pointed_port {
            if self.gateways.contains_key(&port) {
                return Ok(GatewayChoice::Existing(port));
            }
        }
        let port = alloc_port(&mut self.ports, pointed_port)?;
        Ok(GatewayChoice::New(port))
    }
}

/// A client that names the port of a running gateway joins it: once a
/// gateway is recorded on a port, that port is among the table's ports, on
/// which [`GatewayTable::choose_gateway`] answers `Existing`.
pub proof fn lemma_named_port_joins<G>(
    before: GatewayTable<G>,
    after: GatewayTable<G>,
    port: u16,
    gateway: G,
)
    requires
        after.gateway_map() == before.gateway_map().insert(port, gateway),
    ensures
        after.ports().contains(port),
{
}

} // verus!
