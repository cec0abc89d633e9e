use netsim::device::Device;
use netsim::host::Host;
use netsim::network::Network;
use netsim::packet::Packet;
use netsim::router::Router;
use netsim::switch::Switch;

fn host_at(net: &Network, i: usize) -> &Host {
    match &net.devices[i] {
        Device::Host(h) => h,
        _ => panic!("not a host"),
    }
}

fn arp_of<'a>(table: &'a [(String, String)], ip: &str) -> Option<&'a str> {
    table
        .iter()
        .find(|(k, _)| k == ip)
        .map(|(_, v)| v.as_str())
}

#[test]
fn arp_round_trip_fills_both_caches() {
    let mut net = Network::new();
    let sw = net.register(Device::Switch(Switch::new(4)));
    let ha = net.register(Device::Host(Host::new(
        "192.168.1.2".to_string(),
        "AA:BB:CC:DD:EE:02".to_string(),
        0,
        sw,
    )));
    let hb = net.register(Device::Host(Host::new(
        "192.168.1.3".to_string(),
        "AA:BB:CC:DD:EE:03".to_string(),
        1,
        sw,
    )));
    net.add_device(sw, ha).unwrap();
    net.add_device(sw, hb).unwrap();
    let resolved = net.send_arp_request(ha, &"192.168.1.3".to_string());
    assert_eq!(resolved.as_deref(), Some("AA:BB:CC:DD:EE:03"));
    // A's cache gained B's mapping, and B's cache gained A's as a side effect.
    assert_eq!(
        arp_of(&host_at(&net, ha).arp_table, "192.168.1.3"),
        Some("AA:BB:CC:DD:EE:03")
    );
    assert_eq!(
        arp_of(&host_at(&net, hb).arp_table, "192.168.1.2"),
        Some("AA:BB:CC:DD:EE:02")
    );
}

#[test]
fn arp_for_an_unknown_ip_goes_unanswered() {
    let mut net = Network::new();
    let sw = net.register(Device::Switch(Switch::new(4)));
    let ha = net.register(Device::Host(Host::new(
        "192.168.1.2".to_string(),
        "AA:BB:CC:DD:EE:02".to_string(),
        0,
        sw,
    )));
    net.add_device(sw, ha).unwrap();
    let resolved = net.send_arp_request(ha, &"192.168.1.77".to_string());
    assert_eq!(resolved, None);
    assert!(host_at(&net, ha).arp_table.is_empty());
}

#[test]
fn host_answers_arp_only_for_its_own_ip() {
    let mut h = Host::new(
        "192.168.1.3".to_string(),
        "AA:BB:CC:DD:EE:03".to_string(),
        1,
        0,
    );
    let other = Packet::new(
        "AA:BB:CC:DD:EE:02",
        "UNKNOWN",
        "192.168.1.2",
        "192.168.1.9",
        Vec::new(),
        true,
    );
    assert!(h.receive_arp_request(&other).is_none());
    assert!(h.arp_table.is_empty());
    let mine = Packet::new(
        "AA:BB:CC:DD:EE:02",
        "UNKNOWN",
        "192.168.1.2",
        "192.168.1.3",
        Vec::new(),
        true,
    );
    let reply = h.receive_arp_request(&mine).expect("host must answer");
    assert_eq!(reply.src_mac, "AA:BB:CC:DD:EE:03");
    assert_eq!(reply.dest_mac, "AA:BB:CC:DD:EE:02");
    assert_eq!(reply.src_ip, "192.168.1.3");
    assert_eq!(reply.dest_ip, "192.168.1.2");
    assert!(reply.is_arp);
    assert!(reply.data.is_empty());
}

#[test]
fn router_answers_arp_from_the_matching_interface() {
    let mut r = Router::new("192.168.1.1".to_string());
    r.populate_routing_table(
        "192.168.1.0".to_string(),
        0,
        0,
        "".to_string(),
        "AA:BB:CC:DD:EE:11".to_string(),
    );
    r.populate_routing_table(
        "192.168.2.0".to_string(),
        1,
        0,
        "".to_string(),
        "AA:BB:CC:DD:EE:21".to_string(),
    );
    let req = Packet::new(
        "AA:BB:CC:DD:EE:02",
        "UNKNOWN",
        "192.168.1.2",
        "192.168.1.1",
        Vec::new(),
        true,
    );
    let reply = r.receive_arp_request(&req).expect("router must answer");
    assert_eq!(reply.src_mac, "AA:BB:CC:DD:EE:11");
    assert_eq!(reply.dest_mac, "AA:BB:CC:DD:EE:02");
    assert_eq!(arp_of(&r.arp_table, "192.168.1.2"), Some("AA:BB:CC:DD:EE:02"));
    // A request for another IP is not the router's to answer.
    let not_mine = Packet::new(
        "AA:BB:CC:DD:EE:02",
        "UNKNOWN",
        "192.168.1.2",
        "192.168.1.9",
        Vec::new(),
        true,
    );
    assert!(r.receive_arp_request(&not_mine).is_none());
}

#[test]
fn gateway_with_the_lowest_metric_wins() {
    let mut h = Host::new(
        "192.168.1.2".to_string(),
        "AA:BB:CC:DD:EE:02".to_string(),
        0,
        0,
    );
    h.populate_routing_table(
        "192.168.1.1".to_string(),
        vec![("192.168.5.0".to_string(), 1)],
    );
    h.populate_routing_table(
        "192.168.2.1".to_string(),
        vec![("192.168.5.0".to_string(), 0)],
    );
    let chosen = h.select_gateway(&"192.168.5.9".to_string());
    assert_eq!(chosen, Some(("192.168.2.1".to_string(), 0)));
}

#[test]
fn metric_ties_go_to_the_earliest_entry() {
    let mut h = Host::new(
        "192.168.1.2".to_string(),
        "AA:BB:CC:DD:EE:02".to_string(),
        0,
        0,
    );
    h.populate_routing_table(
        "192.168.1.1".to_string(),
        vec![("192.168.5.0".to_string(), 1)],
    );
    h.populate_routing_table(
        "192.168.2.1".to_string(),
        vec![("192.168.5.0".to_string(), 1)],
    );
    let chosen = h.select_gateway(&"192.168.5.9".to_string());
    assert_eq!(chosen, Some(("192.168.1.1".to_string(), 1)));
}

#[test]
fn next_hop_prefers_the_local_subnet() {
    let mut h = Host::new(
        "192.168.1.2".to_string(),
        "AA:BB:CC:DD:EE:02".to_string(),
        0,
        0,
    );
    h.populate_routing_table(
        "192.168.1.1".to_string(),
        vec![("192.168.2.0".to_string(), 0)],
    );
    assert_eq!(
        h.next_hop(&"192.168.1.7".to_string()),
        Some("192.168.1.7".to_string())
    );
    assert_eq!(
        h.next_hop(&"192.168.2.7".to_string()),
        Some("192.168.1.1".to_string())
    );
    assert_eq!(h.next_hop(&"192.168.9.7".to_string()), None);
}

#[test]
fn populate_routing_table_replaces_a_gateway_row() {
    let mut h = Host::new(
        "192.168.1.2".to_string(),
        "AA:BB:CC:DD:EE:02".to_string(),
        0,
        0,
    );
    h.populate_routing_table(
        "192.168.1.1".to_string(),
        vec![("192.168.2.0".to_string(), 5)],
    );
    h.populate_routing_table(
        "192.168.1.1".to_string(),
        vec![("192.168.3.0".to_string(), 2)],
    );
    assert_eq!(h.routing_table.len(), 1);
    assert_eq!(h.routing_table[0].1, vec![("192.168.3.0".to_string(), 2)]);
}

#[test]
fn router_routing_rows_are_keyed_by_network() {
    let mut r = Router::new("192.168.1.1".to_string());
    r.populate_routing_table(
        "192.168.2.0".to_string(),
        0,
        0,
        "192.168.9.1".to_string(),
        "AA:BB:CC:DD:EE:11".to_string(),
    );
    r.populate_routing_table(
        "192.168.2.0".to_string(),
        1,
        2,
        "".to_string(),
        "AA:BB:CC:DD:EE:21".to_string(),
    );
    assert_eq!(r.routing_table.len(), 1);
    assert_eq!(r.routing_table[0].switch, 1);
    assert_eq!(r.routing_table[0].port, 2);
    assert_eq!(r.routing_table[0].next_hop_ip, "");
    assert_eq!(r.routing_table[0].local_mac, "AA:BB:CC:DD:EE:21");
}

#[test]
fn router_info_lists_the_arp_cache() {
    let mut r = Router::new("10.0.0.1".to_string());
    let req = Packet::new(
        "AA:BB:CC:DD:EE:02",
        "UNKNOWN",
        "10.0.0.2",
        "10.0.0.1",
        Vec::new(),
        true,
    );
    r.populate_routing_table(
        "10.0.0.0".to_string(),
        0,
        0,
        "".to_string(),
        "AA:BB:CC:DD:EE:11".to_string(),
    );
    r.receive_arp_request(&req);
    assert_eq!(
        r.get_router_info(),
        "ROUTER: 10.0.0.1\n10.0.0.2 -> AA:BB:CC:DD:EE:02\n"
    );
    assert_eq!(r.get_ip_address(), "10.0.0.1");
}

#[test]
fn host_info_reports_addressing() {
    let h = Host::new(
        "10.0.0.2".to_string(),
        "AA:BB:CC:DD:EE:02".to_string(),
        0,
        0,
    );
    assert_eq!(h.get_host_info(), "HOST: 10.0.0.2\nMAC: AA:BB:CC:DD:EE:02\n");
    assert_eq!(h.get_ip_address(), "10.0.0.2");
}
