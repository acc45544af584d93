use gung::config::server::PortRangeConfig;
use gung::server::port::{alloc_port, init, Port, PortError, PortManager};

#[test]
fn default_pool_holds_ports_below_65535() {
    let mut m = PortManager::default();
    assert_eq!(m.alloc_port(Some(0)), Ok(0));
    assert_eq!(m.alloc_port(Some(65534)), Ok(65534));
    assert_eq!(m.alloc_port(Some(65535)), Err(PortError::PortNotFree(65535)));
}

#[test]
fn a_port_is_handed_out_once() {
    let mut m = PortManager::default();
    assert_eq!(alloc_port(&mut m, Some(8080)), Ok(Port(8080)));
    assert_eq!(alloc_port(&mut m, Some(8080)), Err(PortError::PortNotFree(8080)));
}

#[test]
fn dealloc_gives_the_port_back() {
    let mut m = PortManager::default();
    assert_eq!(m.alloc_port(Some(7000)), Ok(7000));
    m.dealloc(7000);
    assert_eq!(m.alloc_port(Some(7000)), Ok(7000));
}

#[test]
fn init_restricts_the_pool_to_the_ranges() {
    let mut m = PortManager::default();
    let ranges = Some(vec![PortRangeConfig::Single(8000), PortRangeConfig::Range(9000, 9002)]);
    assert_eq!(init(&mut m, &ranges), Ok(()));
    assert_eq!(m.alloc_port(Some(8001)), Err(PortError::PortNotFree(8001)));
    let mut got = Vec::new();
    for _ in 0..4 {
        got.push(m.alloc_port(None).unwrap());
    }
    got.sort();
    assert_eq!(got, vec![8000, 9000, 9001, 9002]);
    assert_eq!(m.alloc_port(None), Err(PortError::NoFreePort));
}

#[test]
fn init_without_ranges_keeps_the_pool() {
    let mut m = PortManager::default();
    assert_eq!(init(&mut m, &None), Ok(()));
    assert_eq!(m.alloc_port(Some(12345)), Ok(12345));
}

#[test]
fn an_inverted_range_allows_nothing() {
    let mut m = PortManager::default();
    assert_eq!(init(&mut m, &Some(vec![PortRangeConfig::Range(10, 5)])), Ok(()));
    assert_eq!(m.alloc_port(None), Err(PortError::NoFreePort));
}

#[test]
fn a_range_may_reach_the_last_port() {
    let mut m = PortManager::default();
    assert_eq!(init(&mut m, &Some(vec![PortRangeConfig::Range(65534, 65535)])), Ok(()));
    assert_eq!(m.alloc_port(Some(65535)), Ok(65535));
    assert_eq!(m.alloc_port(Some(65534)), Ok(65534));
    assert_eq!(m.alloc_port(None), Err(PortError::NoFreePort));
}

#[test]
fn init_replaces_the_pool_with_exactly_the_allowed_ports() {
    let mut m = PortManager::default();
    let mut allowed = std::collections::HashSet::new();
    allowed.insert(40);
    m.init(allowed);
    assert_eq!(m.alloc_port(None), Ok(40));
    assert_eq!(m.alloc_port(None), Err(PortError::NoFreePort));
}

#[test]
fn a_random_port_is_a_free_one() {
    let mut m = PortManager::default();
    let p = m.alloc_port(None).unwrap();
    assert!(p < 65535);
    assert_eq!(m.alloc_port(Some(p)), Err(PortError::PortNotFree(p)));
}

#[test]
fn ports_in_use_and_free_ports_split_the_pool() {
    let mut m = PortManager::default();
    init(&mut m, &Some(vec![PortRangeConfig::Range(5000, 5003)])).unwrap();
    let mut live = Vec::new();
    for _ in 0..4 {
        live.push(alloc_port(&mut m, None).unwrap().0);
    }
    let mut sorted = live.clone();
    sorted.sort();
    assert_eq!(sorted, vec![5000, 5001, 5002, 5003]);
    assert_eq!(alloc_port(&mut m, None), Err(PortError::NoFreePort));
    m.dealloc(live[1]);
    assert_eq!(alloc_port(&mut m, None), Ok(Port(live[1])));
    assert_eq!(alloc_port(&mut m, Some(live[0])), Err(PortError::PortNotFree(live[0])));
}
