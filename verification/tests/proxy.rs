use gung::client::{
    heard_from_server, next_action as client_next_action, ConnectionAction, ConnectionEvent,
};
use gung::config::client::{ProxyConfig, ProxyParams, ProxyType};
use gung::protocol::{ClientCommand, Keepalive, ServerCommand};
use gung::server::port::{Port, PortError, PortManager};
use gung::server::proxy::{
    heard_from_client, http_route, next_action, request_host, GatewayChoice, GatewaySlot, GatewayTable, HttpProxy,
    ProxyAction, ProxyEvent, ProxyHandle, TcpProxy,
};

fn handle(id: &str, tx: u32) -> ProxyHandle<u32, ()> {
    ProxyHandle { proxy_id: id.to_string(), req_tx: tx, server_shutdown_tx: () }
}

#[test]
fn proxy_forwards_requests_and_pings() {
    let id = "p1".to_string();
    assert!(matches!(next_action(&id, ProxyEvent::Request(5)), ProxyAction::Forward(5)));
    assert!(matches!(next_action::<u8>(&id, ProxyEvent::PingTick), ProxyAction::SendPing));
    assert!(matches!(
        next_action::<u8>(&id, ProxyEvent::Command(ClientCommand::Ack)),
        ProxyAction::Continue
    ));
}

#[test]
fn proxy_shuts_down_and_reports_its_id() {
    let id = "p1".to_string();
    for ev in [
        ProxyEvent::<u8>::ClientClosed,
        ProxyEvent::Command(ClientCommand::ClientShutdown),
        ProxyEvent::ServerShutdown,
        ProxyEvent::PingTimeout,
    ] {
        match next_action(&id, ev) {
            ProxyAction::Shutdown(s) => assert_eq!(s, "p1"),
            _ => panic!("expected a shutdown"),
        }
    }
}

#[test]
fn client_connection_decisions() {
    assert!(matches!(client_next_action(ConnectionEvent::DataChannel(9)), ConnectionAction::Forward(9)));
    assert!(matches!(
        client_next_action::<u8>(ConnectionEvent::Command(ServerCommand::Ping)),
        ConnectionAction::SendAck
    ));
    assert!(matches!(
        client_next_action::<u8>(ConnectionEvent::Command(ServerCommand::ForwardingStarted(
            "0.0.0.0:8080".to_string()
        ))),
        ConnectionAction::Continue
    ));
    for ev in [
        ConnectionEvent::<u8>::AcceptFailed,
        ConnectionEvent::ServerClosed,
        ConnectionEvent::ServerError,
        ConnectionEvent::PingTimeout,
        ConnectionEvent::Command(ServerCommand::ForwardingShutdown),
        ConnectionEvent::Command(ServerCommand::ForwardingFailed("x".to_string())),
    ] {
        assert!(matches!(client_next_action(ev), ConnectionAction::Stop));
    }
}

#[test]
fn proxies_build_from_any_client_config() {
    let c = ProxyConfig {
        proxy_type: ProxyType::Http,
        proxy_params: ProxyParams { remote_port: None, custom_domain: None, sub_domain: Some("a".to_string()) },
    };
    assert!(TcpProxy::from_client_config(&c).is_ok());
    assert!(HttpProxy::from_client_config(&c).is_ok());
}

fn r(x: &str) -> String {
    x.to_string()
}

#[test]
fn gateway_slot_serves_one_proxy_per_route() {
    let mut slot: GatewaySlot<u32, ()> = GatewaySlot::new();
    assert!(slot.is_empty());
    assert!(slot.route_for(&r("")).is_none());
    slot.add_proxy(r(""), handle("a", 1));
    assert!(!slot.is_empty());
    assert_eq!(slot.route_for(&r("")).unwrap().req_tx, 1);
    slot.add_proxy(r(""), handle("b", 2));
    let h = slot.route_for(&r("")).unwrap();
    assert_eq!((h.proxy_id.as_str(), h.req_tx), ("b", 2));
    assert!(slot.remove_proxy(&r(""), &r("a")).is_none());
    let h = slot.remove_proxy(&r(""), &r("b")).unwrap();
    assert_eq!(h.req_tx, 2);
    assert!(slot.is_empty());
    assert!(slot.remove_proxy(&r(""), &r("b")).is_none());
}

#[test]
fn requests_go_to_the_route_of_their_host() {
    let mut slot: GatewaySlot<u32, ()> = GatewaySlot::new();
    slot.add_proxy(r("a.example.com"), handle("a", 1));
    slot.add_proxy(r("b.example.com"), handle("b", 2));
    assert_eq!(slot.route_for(&r("a.example.com")).unwrap().req_tx, 1);
    assert_eq!(slot.route_for(&r("b.example.com")).unwrap().req_tx, 2);
    assert!(slot.route_for(&r("c.example.com")).is_none());
    slot.add_proxy(r(""), handle("any", 3));
    assert_eq!(slot.route_for(&r("c.example.com")).unwrap().req_tx, 3);
    assert_eq!(slot.route_for(&r("a.example.com")).unwrap().req_tx, 1);
}

#[test]
fn gateway_releases_its_port_when_its_last_proxy_closes() {
    let mut slot: GatewaySlot<u32, ()> = GatewaySlot::new();
    slot.add_proxy(r("a.example.com"), handle("a", 1));
    slot.add_proxy(r("b.example.com"), handle("b", 2));
    let (h, port) = slot.on_client_shutdown(&r("a.example.com"), &r("a"), 8080);
    assert_eq!(h.unwrap().proxy_id, "a");
    assert_eq!(port, None);
    let (h, port) = slot.on_client_shutdown(&r("b.example.com"), &r("x"), 8080);
    assert!(h.is_none());
    assert_eq!(port, None);
    let (h, port) = slot.on_client_shutdown(&r("b.example.com"), &r("b"), 8080);
    assert_eq!(h.unwrap().req_tx, 2);
    assert_eq!(port, Some(8080));
    assert!(slot.is_empty());
}

#[test]
fn http_routes_come_from_the_domains() {
    let base = r("tunnel.example.com");
    let params = |custom: Option<&str>, sub: Option<&str>| ProxyParams {
        remote_port: None,
        custom_domain: custom.map(r),
        sub_domain: sub.map(r),
    };
    assert_eq!(http_route(&params(Some("my.site"), None), &base), "my.site");
    assert_eq!(http_route(&params(None, Some("app")), &base), "app.tunnel.example.com");
    assert_eq!(http_route(&params(None, None), &base), "");
}

#[test]
fn request_hosts_drop_the_port() {
    assert_eq!(request_host("example.com:8080"), "example.com");
    assert_eq!(request_host("example.com"), "example.com");
    assert_eq!(request_host("example.com:"), "example.com:");
    assert_eq!(request_host("[::1]:80"), "[::1]");
    assert_eq!(request_host("[::1]"), "[::1]");
    assert_eq!(request_host(""), "");
}

#[test]
fn a_named_running_gateway_is_joined() {
    let mut table: GatewayTable<&str> = GatewayTable::new(PortManager::default());
    assert_eq!(table.choose_gateway(Some(8080)), Ok(GatewayChoice::New(Port(8080))));
    table.insert(8080, "gw");
    assert_eq!(table.lookup(Some(8080)), Some(&"gw"));
    assert_eq!(table.lookup(None), None);
    assert_eq!(table.choose_gateway(Some(8080)), Ok(GatewayChoice::Existing(8080)));
}

#[test]
fn a_taken_port_without_gateway_is_refused() {
    let mut ports = PortManager::default();
    assert_eq!(ports.alloc_port(Some(9000)), Ok(9000));
    let mut table: GatewayTable<&str> = GatewayTable::new(ports);
    assert_eq!(table.choose_gateway(Some(9000)), Err(PortError::PortNotFree(9000)));
}

#[test]
fn an_unnamed_port_comes_from_the_pool() {
    let mut ports = PortManager::default();
    let mut allowed = std::collections::HashSet::new();
    allowed.insert(7100);
    ports.init(allowed);
    let mut table: GatewayTable<&str> = GatewayTable::new(ports);
    assert_eq!(table.choose_gateway(None), Ok(GatewayChoice::New(Port(7100))));
    assert_eq!(table.choose_gateway(None), Err(PortError::NoFreePort));
}

#[test]
fn a_new_gateway_never_lands_on_a_running_one() {
    let mut ports = PortManager::default();
    let mut allowed = std::collections::HashSet::new();
    allowed.insert(7200);
    allowed.insert(7201);
    ports.init(allowed);
    let mut table: GatewayTable<&str> = GatewayTable::new(ports);
    let first = match table.choose_gateway(None) {
        Ok(GatewayChoice::New(p)) => p.0,
        other => panic!("expected a new port, got {other:?}"),
    };
    table.insert(first, "gw");
    match table.choose_gateway(None) {
        Ok(GatewayChoice::New(p)) => assert_ne!(p.0, first),
        other => panic!("expected a new port, got {other:?}"),
    }
    assert_eq!(table.choose_gateway(None), Err(PortError::NoFreePort));
}

#[test]
fn closing_a_gateway_returns_its_port() {
    let mut table: GatewayTable<&str> = GatewayTable::new(PortManager::default());
    assert_eq!(table.choose_gateway(Some(6000)), Ok(GatewayChoice::New(Port(6000))));
    table.insert(6000, "gw");
    assert_eq!(table.remove(6000), Some("gw"));
    assert_eq!(table.remove(6000), None);
    assert_eq!(table.lookup(Some(6000)), None);
    assert_eq!(table.choose_gateway(Some(6000)), Ok(GatewayChoice::New(Port(6000))));
}

#[test]
fn a_port_of_a_gateway_that_failed_to_open_goes_back() {
    let mut table: GatewayTable<&str> = GatewayTable::new(PortManager::default());
    assert_eq!(table.choose_gateway(Some(6100)), Ok(GatewayChoice::New(Port(6100))));
    assert_eq!(table.choose_gateway(Some(6100)), Err(PortError::PortNotFree(6100)));
    table.release(6100);
    assert_eq!(table.choose_gateway(Some(6100)), Ok(GatewayChoice::New(Port(6100))));
    table.insert(6100, "gw");
    table.release(6100);
    assert_eq!(table.choose_gateway(Some(6100)), Ok(GatewayChoice::Existing(6100)));
}

#[test]
fn a_peer_is_given_up_only_after_a_silent_timeout() {
    let mut k = Keepalive::new(0, 700);
    assert_eq!(k.deadline(), 700);
    assert!(!k.expired(699));
    assert!(k.expired(700));
    k.heard(600);
    assert_eq!(k.deadline(), 1300);
    assert!(!k.expired(1000));
    k.heard(100);
    assert_eq!(k.deadline(), 1300);
    assert!(k.expired(1300));
    let far = Keepalive::new(u64::MAX - 5, 700);
    assert_eq!(far.deadline(), u64::MAX);
    assert!(!far.expired(u64::MAX));
}

#[test]
fn only_the_peer_itself_keeps_it_alive() {
    assert!(heard_from_client(&ProxyEvent::<u8>::Command(ClientCommand::Ack)));
    assert!(!heard_from_client(&ProxyEvent::Request(1u8)));
    assert!(!heard_from_client(&ProxyEvent::<u8>::PingTick));
    assert!(!heard_from_client(&ProxyEvent::<u8>::PingTimeout));
    assert!(heard_from_server(&ConnectionEvent::DataChannel(1u8)));
    assert!(heard_from_server(&ConnectionEvent::<u8>::Command(ServerCommand::Ping)));
    assert!(!heard_from_server(&ConnectionEvent::<u8>::ServerClosed));
    assert!(!heard_from_server(&ConnectionEvent::<u8>::PingTimeout));
}
