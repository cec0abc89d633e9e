use netsim::device::Device;
use netsim::host::Host;
use netsim::network::Network;
use netsim::packet::Packet;
use netsim::router::Router;
use netsim::switch::Switch;

fn host_at(net: &Network, i: usize) -> &Host {
    match &net.devices[i] {
        Device::Host(h) => h,
        _ => panic!("not a host"),
    }
}

#[test]
fn packet_new_assigns_fields() {
    let p = Packet::new(
        "AA:BB:CC:DD:EE:02",
        "AA:BB:CC:DD:EE:03",
        "192.168.1.2",
        "192.168.1.3",
        b"Hello".to_vec(),
        false,
    );
    assert_eq!(p.src_mac, "AA:BB:CC:DD:EE:02");
    assert_eq!(p.dest_mac, "AA:BB:CC:DD:EE:03");
    assert_eq!(p.src_ip, "192.168.1.2");
    assert_eq!(p.dest_ip, "192.168.1.3");
    assert_eq!(p.data, b"Hello".to_vec());
    assert!(!p.is_arp);
}

#[test]
fn rebuild_l3_replaces_only_the_macs() {
    let p = Packet::new(
        "AA:BB:CC:DD:EE:02",
        "AA:BB:CC:DD:EE:11",
        "192.168.1.2",
        "192.168.2.3",
        b"Hello".to_vec(),
        false,
    );
    let q = p.rebuild_L3("AA:BB:CC:DD:EE:21".to_string(), "AA:BB:CC:DD:EE:03".to_string());
    assert_eq!(q.src_mac, "AA:BB:CC:DD:EE:21");
    assert_eq!(q.dest_mac, "AA:BB:CC:DD:EE:03");
    assert_eq!(q.src_ip, p.src_ip);
    assert_eq!(q.dest_ip, p.dest_ip);
    assert_eq!(q.data, p.data);
    assert_eq!(q.is_arp, p.is_arp);
}

fn same_subnet_pair() -> (Network, usize, usize) {
    let mut net = Network::new();
    let sw = net.register(Device::Switch(Switch::new(4)));
    let h1 = net.register(Device::Host(Host::new(
        "192.168.1.2".to_string(),
        "AA:BB:CC:DD:EE:02".to_string(),
        0,
        sw,
    )));
    let h2 = net.register(Device::Host(Host::new(
        "192.168.1.3".to_string(),
        "AA:BB:CC:DD:EE:03".to_string(),
        1,
        sw,
    )));
    net.add_device(sw, h1).unwrap();
    net.add_device(sw, h2).unwrap();
    (net, h1, h2)
}

#[test]
fn same_subnet_delivery_reaches_the_destination_log() {
    let (mut net, h1, h2) = same_subnet_pair();
    net.send_packet(h1, &"192.168.1.3".to_string(), b"Hello".to_vec(), 8);
    let dst = host_at(&net, h2);
    assert_eq!(dst.incoming_packets.len(), 1);
    let got = &dst.incoming_packets[0];
    assert_eq!(got.src_ip, "192.168.1.2");
    assert_eq!(got.dest_ip, "192.168.1.3");
    assert_eq!(got.data, b"Hello".to_vec());
    assert!(!got.is_arp);
    // The destination echoed the payload back, and the sender logged it.
    let src = host_at(&net, h1);
    assert_eq!(src.outgoing_packets.len(), 1);
    assert_eq!(src.incoming_packets.len(), 1);
    let echo = &src.incoming_packets[0];
    assert_eq!(echo.src_ip, "192.168.1.3");
    assert_eq!(echo.dest_ip, "192.168.1.2");
    assert_eq!(echo.data, b"Hello".to_vec());
}

#[test]
fn send_without_a_route_sends_nothing() {
    let (mut net, h1, h2) = same_subnet_pair();
    net.send_packet(h1, &"10.9.9.9".to_string(), b"Hello".to_vec(), 8);
    assert_eq!(host_at(&net, h1).outgoing_packets.len(), 0);
    assert_eq!(host_at(&net, h2).incoming_packets.len(), 0);
}

#[test]
fn send_with_unresolved_arp_sends_nothing() {
    let (mut net, h1, h2) = same_subnet_pair();
    // Nobody owns this same-subnet address, so ARP goes unanswered.
    net.send_packet(h1, &"192.168.1.99".to_string(), b"Hello".to_vec(), 8);
    assert_eq!(host_at(&net, h1).outgoing_packets.len(), 0);
    assert_eq!(host_at(&net, h2).incoming_packets.len(), 0);
}

#[test]
fn send_with_a_dead_switch_reference_sends_nothing() {
    let mut net = Network::new();
    // The host names a registry index that holds no switch.
    let h1 = net.register(Device::Host(Host::new(
        "192.168.1.2".to_string(),
        "AA:BB:CC:DD:EE:02".to_string(),
        0,
        77,
    )));
    net.send_packet(h1, &"192.168.1.3".to_string(), b"Hello".to_vec(), 8);
    assert_eq!(host_at(&net, h1).outgoing_packets.len(), 0);
    assert_eq!(host_at(&net, h1).incoming_packets.len(), 0);
}

/// Two subnets joined by one router: switch 1 carries the first subnet,
/// switch 2 the second, and the router has one interface on each.
fn routed_topology() -> (Network, usize, usize) {
    let mut net = Network::new();
    let sw1 = net.register(Device::Switch(Switch::new(3)));
    let sw2 = net.register(Device::Switch(Switch::new(3)));
    let mut router = Router::new("192.168.1.1".to_string());
    let ha = net.register(Device::Host(Host::new(
        "192.168.1.10".to_string(),
        "AA:BB:CC:DD:EE:1A".to_string(),
        0,
        sw1,
    )));
    let hc = net.register(Device::Host(Host::new(
        "192.168.2.20".to_string(),
        "AA:BB:CC:DD:EE:2C".to_string(),
        0,
        sw2,
    )));
    let r = net.devices.len(); // the router's index once registered below
    let r1_port = net.add_device(sw1, r).unwrap();
    router.populate_routing_table(
        "192.168.1.0".to_string(),
        sw1,
        r1_port,
        "".to_string(),
        "AA:BB:CC:DD:EE:11".to_string(),
    );
    let r2_port = net.add_device(sw2, r).unwrap();
    router.populate_routing_table(
        "192.168.2.0".to_string(),
        sw2,
        r2_port,
        "".to_string(),
        "AA:BB:CC:DD:EE:21".to_string(),
    );
    let ha_port = net.add_device(sw1, ha).unwrap();
    let hc_port = net.add_device(sw2, hc).unwrap();
    let registered = net.register(Device::Router(router));
    assert_eq!(registered, r);
    match &mut net.devices[ha] {
        Device::Host(h) => {
            h.assign_port(ha_port);
            h.populate_routing_table(
                "192.168.1.1".to_string(),
                vec![("192.168.1.0".to_string(), 0), ("192.168.2.0".to_string(), 1)],
            );
        }
        _ => panic!("not a host"),
    }
    match &mut net.devices[hc] {
        Device::Host(h) => {
            h.assign_port(hc_port);
            h.populate_routing_table(
                "192.168.1.1".to_string(),
                vec![("192.168.1.0".to_string(), 1)],
            );
        }
        _ => panic!("not a host"),
    }
    (net, ha, hc)
}

#[test]
fn cross_subnet_delivery_keeps_l3_and_rewrites_l2() {
    let (mut net, ha, hc) = routed_topology();
    net.send_packet(ha, &"192.168.2.20".to_string(), b"Hi".to_vec(), 8);
    let dst = host_at(&net, hc);
    assert_eq!(dst.incoming_packets.len(), 1);
    let got = &dst.incoming_packets[0];
    // L3 addressing and payload arrive unchanged.
    assert_eq!(got.src_ip, "192.168.1.10");
    assert_eq!(got.dest_ip, "192.168.2.20");
    assert_eq!(got.data, b"Hi".to_vec());
    assert!(!got.is_arp);
    // L2 addressing was rewritten at the router hop: the frame now comes from
    // the router's second-subnet interface, addressed to the destination.
    assert_eq!(got.src_mac, "AA:BB:CC:DD:EE:21");
    assert_eq!(got.dest_mac, "AA:BB:CC:DD:EE:2C");
    // The echoed reply came back across the router with its L2 addressing
    // restored toward the original sender.
    let src = host_at(&net, ha);
    assert_eq!(src.incoming_packets.len(), 1);
    let echo = &src.incoming_packets[0];
    assert_eq!(echo.src_ip, "192.168.2.20");
    assert_eq!(echo.dest_ip, "192.168.1.10");
    assert_eq!(echo.data, b"Hi".to_vec());
    assert_eq!(echo.src_mac, "AA:BB:CC:DD:EE:11");
    assert_eq!(echo.dest_mac, "AA:BB:CC:DD:EE:1A");
}

#[test]
fn an_exhausted_hop_budget_drops_at_the_router() {
    let (mut net, ha, hc) = routed_topology();
    // With no hop budget the router cannot relay.
    net.send_packet(ha, &"192.168.2.20".to_string(), b"Hi".to_vec(), 0);
    assert_eq!(host_at(&net, hc).incoming_packets.len(), 0);
    assert_eq!(host_at(&net, ha).incoming_packets.len(), 0);
    // The send itself was attempted: the packet left the sender.
    assert_eq!(host_at(&net, ha).outgoing_packets.len(), 1);
}

#[test]
fn router_ignores_frames_not_addressed_to_its_interfaces() {
    let mut net = Network::new();
    let mut router = Router::new("192.168.1.1".to_string());
    router.populate_routing_table(
        "192.168.2.0".to_string(),
        0,
        0,
        "".to_string(),
        "AA:BB:CC:DD:EE:11".to_string(),
    );
    let r = net.register(Device::Router(router));
    let p = Packet::new(
        "AA:BB:CC:DD:EE:02",
        "AA:BB:CC:DD:EE:99",
        "192.168.1.2",
        "192.168.2.3",
        b"z".to_vec(),
        false,
    );
    let reply = net.forward_packet(r, &p, 8);
    assert!(reply.is_none());
    match &net.devices[r] {
        Device::Router(rt) => assert_eq!(rt.incoming_packets.len(), 0),
        _ => panic!("not a router"),
    }
}
