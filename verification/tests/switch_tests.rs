use netsim::device::Device;
use netsim::host::Host;
use netsim::network::Network;
use netsim::packet::Packet;
use netsim::switch::Switch;

fn host_at(net: &Network, i: usize) -> &Host {
    match &net.devices[i] {
        Device::Host(h) => h,
        _ => panic!("not a host"),
    }
}

fn switch_at(net: &Network, i: usize) -> &Switch {
    match &net.devices[i] {
        Device::Switch(s) => s,
        _ => panic!("not a switch"),
    }
}

#[test]
fn switch_new_has_free_ports() {
    let s = Switch::new(3);
    assert_eq!(s.ports.len(), 3);
    assert!(s.ports.iter().all(|p| p.is_none()));
    assert!(s.mac_table.is_empty());
}

#[test]
fn add_device_fills_first_free_slot() {
    let mut s = Switch::new(2);
    assert_eq!(s.add_device(7), Some(0));
    assert_eq!(s.add_device(8), Some(1));
    assert_eq!(s.ports[0], Some(7));
    assert_eq!(s.ports[1], Some(8));
}

#[test]
fn add_device_reports_full_switch() {
    let mut s = Switch::new(1);
    assert_eq!(s.add_device(3), Some(0));
    assert_eq!(s.add_device(4), None);
    assert_eq!(s.ports[0], Some(3));
}

#[test]
fn network_add_device_rejects_non_switch() {
    let mut net = Network::new();
    let h = net.register(Device::Host(Host::new(
        "10.0.0.1".to_string(),
        "AA:BB:CC:DD:EE:01".to_string(),
        0,
        99,
    )));
    assert_eq!(net.add_device(h, 0), None);
    assert_eq!(net.add_device(42, 0), None);
}

#[test]
fn process_packet_learns_source_mac_on_ingress_port() {
    let mut net = Network::new();
    let sw = net.register(Device::Switch(Switch::new(4)));
    let p = Packet::new(
        "AA:BB:CC:DD:EE:02",
        "AA:BB:CC:DD:EE:03",
        "192.168.1.2",
        "192.168.1.3",
        Vec::new(),
        false,
    );
    net.process_packet(sw, &p, 1, 8);
    let s = switch_at(&net, sw);
    assert_eq!(s.mac_table.len(), 1);
    assert_eq!(s.mac_table[0].0, "AA:BB:CC:DD:EE:02");
    assert_eq!(s.mac_table[0].1, 1);
}

#[test]
fn learning_is_first_write_wins_and_idempotent() {
    let mut net = Network::new();
    let sw = net.register(Device::Switch(Switch::new(4)));
    let p = Packet::new(
        "AA:BB:CC:DD:EE:02",
        "AA:BB:CC:DD:EE:03",
        "192.168.1.2",
        "192.168.1.3",
        Vec::new(),
        false,
    );
    net.process_packet(sw, &p, 1, 8);
    let first = switch_at(&net, sw).mac_table.clone();
    // A second identical call leaves the mapping unchanged.
    net.process_packet(sw, &p, 1, 8);
    assert_eq!(switch_at(&net, sw).mac_table, first);
    // A later sighting on another port does not overwrite the mapping.
    net.process_packet(sw, &p, 2, 8);
    let s = switch_at(&net, sw);
    assert_eq!(s.mac_table.len(), 1);
    assert_eq!(s.mac_table[0].1, 1);
}

fn two_hosts_one_switch() -> (Network, usize, usize, usize) {
    let mut net = Network::new();
    let sw = net.register(Device::Switch(Switch::new(4)));
    let h1 = net.register(Device::Host(Host::new(
        "192.168.1.2".to_string(),
        "AA:BB:CC:DD:EE:02".to_string(),
        0,
        sw,
    )));
    let h2 = net.register(Device::Host(Host::new(
        "192.168.1.3".to_string(),
        "AA:BB:CC:DD:EE:03".to_string(),
        1,
        sw,
    )));
    let p1 = net.add_device(sw, h1).unwrap();
    let p2 = net.add_device(sw, h2).unwrap();
    assert_eq!((p1, p2), (0, 1));
    (net, sw, h1, h2)
}

#[test]
fn unicast_goes_to_the_mapped_port_only() {
    let (mut net, sw, _h1, h2) = two_hosts_one_switch();
    // A third host shares h2's IP but sits on a later port: once h2's MAC is
    // learned, only h2 may see the packet.
    let h3 = net.register(Device::Host(Host::new(
        "192.168.1.3".to_string(),
        "AA:BB:CC:DD:EE:04".to_string(),
        2,
        sw,
    )));
    net.add_device(sw, h3).unwrap();
    // Teach the switch h2's MAC by traffic from h2's port.
    let teach = Packet::new(
        "AA:BB:CC:DD:EE:03",
        "FF:FF:FF:FF:FF:FF",
        "192.168.1.3",
        "192.168.1.9",
        Vec::new(),
        false,
    );
    net.process_packet(sw, &teach, 1, 8);
    // Now a packet for h2's MAC from port 0 is unicast to port 1 only.
    let p = Packet::new(
        "AA:BB:CC:DD:EE:02",
        "AA:BB:CC:DD:EE:03",
        "192.168.1.2",
        "192.168.1.3",
        b"x".to_vec(),
        false,
    );
    let reply = net.process_packet(sw, &p, 0, 8);
    assert!(reply.is_some());
    assert_eq!(host_at(&net, h2).incoming_packets.len(), 1);
    assert_eq!(host_at(&net, h3).incoming_packets.len(), 0);
}

#[test]
fn flood_tries_ports_in_ascending_order_and_stops_at_first_reply() {
    let (mut net, sw, _h1, h2) = two_hosts_one_switch();
    // h3 also answers to the destination IP but sits on a later port: the
    // flood must stop at h2 and never reach h3.
    let h3 = net.register(Device::Host(Host::new(
        "192.168.1.3".to_string(),
        "AA:BB:CC:DD:EE:04".to_string(),
        2,
        sw,
    )));
    net.add_device(sw, h3).unwrap();
    let p = Packet::new(
        "AA:BB:CC:DD:EE:02",
        "AA:BB:CC:DD:EE:FF",
        "192.168.1.2",
        "192.168.1.3",
        b"y".to_vec(),
        false,
    );
    let reply = net.process_packet(sw, &p, 0, 8);
    assert!(reply.is_some());
    assert_eq!(host_at(&net, h2).incoming_packets.len(), 1);
    assert_eq!(host_at(&net, h3).incoming_packets.len(), 0);
}

#[test]
fn flood_spares_the_ingress_port() {
    let (mut net, sw, h1, _h2) = two_hosts_one_switch();
    // A packet for h1's own IP arriving on h1's port: the only matching host
    // sits on the ingress port, so nobody receives it.
    let p = Packet::new(
        "AA:BB:CC:DD:EE:09",
        "AA:BB:CC:DD:EE:FF",
        "192.168.1.9",
        "192.168.1.2",
        Vec::new(),
        false,
    );
    let reply = net.process_packet(sw, &p, 0, 8);
    assert!(reply.is_none());
    assert_eq!(host_at(&net, h1).incoming_packets.len(), 0);
}

#[test]
fn switch_info_is_labelled() {
    let s = Switch::new(2);
    assert_eq!(s.get_switch_info(), "SWITCH\n");
}
