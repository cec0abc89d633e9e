use vstd::prelude::*;
use crate::device::{spec_device_recv_arp, Device, DeviceV};
use crate::host::{Host, HostV};
use crate::packet::{log_packet, Packet, PacketV};
use crate::router::{Router, RouterV};
use crate::switch::SwitchV;
use crate::tables::{lookup_str, spec_assoc, spec_learn, upsert_str};

verus! {

/// The device registry: every host, router and switch of the simulated
/// topology, each at a stable index. Every cross-reference — a switch port, a
/// router's egress, a host's attachment — is such an index, so the registry
/// is the single owner of every device.
pub struct Network {
    pub devices: Vec<Device>,
}

impl View for Network {
    type V = Seq<DeviceV>;

    open spec fn view(&self) -> Seq<DeviceV> {
        self.devices.deep_view()
    }
}

/// The device at index `i`, if the index is live.
pub open spec fn spec_dev(net: Seq<DeviceV>, i: usize) -> Option<DeviceV> {
    if i < net.len() {
        Some(net[i as int])
    } else {
        None
    }
}

/// What delivering an ARP request to the device at `node` does: the device
/// answers locally as its kind prescribes; a dead index means no reply.
pub open spec fn spec_recv_arp(net: Seq<DeviceV>, node: usize, p: PacketV) -> (
    Seq<DeviceV>,
    Option<PacketV>,
) {
    match spec_dev(net, node) {
        Some(d) => {
            let r = spec_device_recv_arp(d, p);
            (net.update(node as int, r.0), r.1)
        },
        None => (net, None),
    }
}

/// The ARP flood from port `i` upward: every occupied port except the ingress
/// port is tried in ascending index order, and the first non-empty reply is
/// returned at once; later ports are not tried.
pub open spec fn spec_flood_arp(
    net: Seq<DeviceV>,
    ports: Seq<Option<usize>>,
    i: int,
    ingress: usize,
    p: PacketV,
) -> (Seq<DeviceV>, Option<PacketV>)
    decreases ports.len() - i,
{
    if i < 0 || i >= ports.len() {
        (net, None)
    } else {
        match ports[i] {
            Some(node) => {
                if i != ingress {
                    let r = spec_recv_arp(net, node, p);
                    if r.1 is Some {
                        r
                    } else {
                        spec_flood_arp(r.0, ports, i + 1, ingress, p)
                    }
                } else {
                    spec_flood_arp(net, ports, i + 1, ingress, p)
                }
            },
            None => spec_flood_arp(net, ports, i + 1, ingress, p),
        }
    }
}

/// What a switch does with an ARP request arriving on `port`: learn the
/// source MAC, then flood to every other occupied port in ascending order and
/// return the first reply. An index that is not a live switch means no
/// effect and no reply.
pub open spec fn spec_process_arp(net: Seq<DeviceV>, sw: usize, p: PacketV, port: usize) -> (
    Seq<DeviceV>,
    Option<PacketV>,
) {
    match spec_dev(net, sw) {
        Some(DeviceV::Switch(s)) => {
            let s2 = SwitchV { mac_table: spec_learn(s.mac_table, p.src_mac, port), ..s };
            let r = spec_flood_arp(net, s2.ports, 0, port, p);
            (r.0.update(sw as int, DeviceV::Switch(s2)), r.1)
        },
        _ => (net, None),
    }
}

/// Flooding never adds or removes devices.
pub proof fn lemma_flood_arp_len(
    net: Seq<DeviceV>,
    ports: Seq<Option<usize>>,
    i: int,
    ingress: usize,
    p: PacketV,
)
    ensures
        spec_flood_arp(net, ports, i, ingress, p).0.len() == net.len(),
    decreases ports.len() - i,
{
    if 0 <= i < ports.len() {
        match ports[i] {
            Some(node) => {
                if i != ingress {
                    let r = spec_recv_arp(net, node, p);
                    if r.1 is None {
                        lemma_flood_arp_len(r.0, ports, i + 1, ingress, p);
                    }
                } else {
                    lemma_flood_arp_len(net, ports, i + 1, ingress, p);
                }
            },
            None => {
                lemma_flood_arp_len(net, ports, i + 1, ingress, p);
            },
        }
    }
}

/// An ARP exchange never adds or removes devices.
pub proof fn lemma_process_arp_len(net: Seq<DeviceV>, sw: usize, p: PacketV, port: usize)
    ensures
        spec_process_arp(net, sw, p, port).0.len() == net.len(),
{
    match spec_dev(net, sw) {
        Some(DeviceV::Switch(s)) => {
            let s2 = SwitchV { mac_table: spec_learn(s.mac_table, p.src_mac, port), ..s };
            lemma_flood_arp_len(net, s2.ports, 0, port, p);
        },
        _ => {},
    }
}

/// The ARP request a host sends for `dest_ip`: from its own MAC and IP, with
/// the destination MAC still unknown.
pub open spec fn spec_host_arp_request(h: HostV, dest_ip: Seq<char>) -> PacketV {
    PacketV {
        src_mac: h.mac_address,
        dest_mac: "UNKNOWN"@,
        src_ip: h.ip_address,
        dest_ip: dest_ip,
        data: Seq::empty(),
        is_arp: true,
    }
}

/// A host resolving `dest_ip` over its attached switch: the ARP request is
/// flooded, and on a reply the answering MAC is cached and returned. The
/// first component is the rest of the network afterwards, the second the
/// host afterwards.
pub open spec fn spec_host_arp_step(net: Seq<DeviceV>, h: HostV, dest_ip: Seq<char>) -> (
    Seq<DeviceV>,
    HostV,
    Option<Seq<char>>,
) {
    let r = spec_process_arp(net, h.switch, spec_host_arp_request(h, dest_ip), h.port);
    match r.1 {
        Some(resp) => (
            r.0,
            HostV { arp_table: crate::tables::spec_upsert(h.arp_table, dest_ip, resp.src_mac), ..h },
            Some(resp.src_mac),
        ),
        None => (r.0, h, None),
    }
}

/// The ARP request a router sends for `dest_ip` out of one of its interfaces:
/// from that interface's MAC and the router's IP.
pub open spec fn spec_router_arp_request(r: RouterV, dest_ip: Seq<char>, src_mac: Seq<char>)
    -> PacketV {
    PacketV {
        src_mac: src_mac,
        dest_mac: "UNKNOWN"@,
        src_ip: r.ip_address,
        dest_ip: dest_ip,
        data: Seq::empty(),
        is_arp: true,
    }
}

/// A router resolving `dest_ip` through port `port` of the switch at `sw`,
/// sending from interface MAC `src_mac`: on a reply the answering MAC is
/// cached and returned.
pub open spec fn spec_router_arp_step(
    net: Seq<DeviceV>,
    r: RouterV,
    dest_ip: Seq<char>,
    src_mac: Seq<char>,
    sw: usize,
    port: usize,
) -> (Seq<DeviceV>, RouterV, Option<Seq<char>>) {
    let res = spec_process_arp(net, sw, spec_router_arp_request(r, dest_ip, src_mac), port);
    match res.1 {
        Some(resp) => (
            res.0,
            RouterV {
                arp_table: crate::tables::spec_upsert(r.arp_table, dest_ip, resp.src_mac),
                ..r
            },
            Some(resp.src_mac),
        ),
        None => (res.0, r, None),
    }
}

/// What `send_arp_request` does: the host at `host` resolves `dest_ip`; on
/// success its ARP cache gains the mapping and the resolved MAC is returned.
pub open spec fn spec_send_arp(net: Seq<DeviceV>, host: usize, dest_ip: Seq<char>) -> (
    Seq<DeviceV>,
    Option<Seq<char>>,
) {
    match spec_dev(net, host) {
        Some(DeviceV::Host(h)) => {
            let st = spec_host_arp_step(net, h, dest_ip);
            (st.0.update(host as int, DeviceV::Host(st.1)), st.2)
        },
        _ => (net, None),
    }
}

/// What `router_send_arp_request` does: the router at `router` resolves
/// `dest_ip` through the given switch and port, sending from `src_mac`.
pub open spec fn spec_router_send_arp(
    net: Seq<DeviceV>,
    router: usize,
    dest_ip: Seq<char>,
    src_mac: Seq<char>,
    sw: usize,
    port: usize,
) -> (Seq<DeviceV>, Option<Seq<char>>) {
    match spec_dev(net, router) {
        Some(DeviceV::Router(r)) => {
            let st = spec_router_arp_step(net, r, dest_ip, src_mac, sw, port);
            (st.0.update(router as int, DeviceV::Router(st.1)), st.2)
        },
        _ => (net, None),
    }
}

/// The reply a host echoes toward a packet's sender, addressed to the MAC the
/// return route resolved to, carrying the original payload back.
pub open spec fn spec_host_reply(h: HostV, p: PacketV, mac: Seq<char>) -> PacketV {
    PacketV {
        src_mac: h.mac_address,
        dest_mac: mac,
        src_ip: h.ip_address,
        dest_ip: p.src_ip,
        data: p.data,
        is_arp: false,
    }
}

/// What a host does with a delivered packet: a packet not addressed to its IP
/// is ignored; an accepted packet is logged, a return route toward its sender
/// is computed by the same subnet-or-gateway rule used for sending, the
/// return MAC is taken from the ARP cache or resolved by a fresh ARP
/// exchange, and a reply carrying the original payload is logged and echoed
/// back; with no return route or no ARP answer the packet is kept but nothing
/// is echoed.
pub open spec fn spec_host_receive(net: Seq<DeviceV>, host: usize, p: PacketV) -> (
    Seq<DeviceV>,
    Option<PacketV>,
) {
    match spec_dev(net, host) {
        Some(DeviceV::Host(h)) => {
            if p.dest_ip != h.ip_address {
                (net, None)
            } else {
                let h1 = HostV { incoming_packets: h.incoming_packets.push(p), ..h };
                match crate::host::spec_next_hop(h1, p.src_ip) {
                    None => (net.update(host as int, DeviceV::Host(h1)), None),
                    Some(hop_ip) => match spec_assoc(h1.arp_table, hop_ip) {
                        Some(mac) => {
                            let reply = spec_host_reply(h1, p, mac);
                            let h2 = HostV {
                                outgoing_packets: h1.outgoing_packets.push(reply),
                                ..h1
                            };
                            (net.update(host as int, DeviceV::Host(h2)), Some(reply))
                        },
                        None => {
                            let st = spec_host_arp_step(net, h1, hop_ip);
                            match st.2 {
                                Some(mac) => {
                                    let reply = spec_host_reply(h1, p, mac);
                                    let h2 = HostV {
                                        outgoing_packets: st.1.outgoing_packets.push(reply),
                                        ..st.1
                                    };
                                    (st.0.update(host as int, DeviceV::Host(h2)), Some(reply))
                                },
                                None => (st.0.update(host as int, DeviceV::Host(st.1)), None),
                            }
                        },
                    },
                }
            }
        },
        _ => (net, None),
    }
}

/// What a switch does with a data packet arriving on `port`, with `ttl` hops
/// of budget left: learn the source MAC; if the destination MAC is known,
/// deliver to exactly its mapped port (an empty or out-of-range mapping drops
/// the packet); otherwise flood every other occupied port in ascending order
/// and return the first reply.
pub open spec fn spec_process_packet(
    net: Seq<DeviceV>,
    sw: usize,
    p: PacketV,
    port: usize,
    ttl: nat,
) -> (Seq<DeviceV>, Option<PacketV>)
    decreases ttl, 3int, 0int,
{
    match spec_dev(net, sw) {
        Some(DeviceV::Switch(s)) => {
            let s2 = SwitchV { mac_table: spec_learn(s.mac_table, p.src_mac, port), ..s };
            match spec_assoc(s2.mac_table, p.dest_mac) {
                Some(tp) => {
                    if tp < s2.ports.len() {
                        match s2.ports[tp as int] {
                            Some(node) => {
                                let r = spec_recv_packet(net, node, p, ttl);
                                (r.0.update(sw as int, DeviceV::Switch(s2)), r.1)
                            },
                            None => (net.update(sw as int, DeviceV::Switch(s2)), None),
                        }
                    } else {
                        (net.update(sw as int, DeviceV::Switch(s2)), None)
                    }
                },
                None => {
                    let r = spec_flood(net, s2.ports, 0, port, p, ttl);
                    (r.0.update(sw as int, DeviceV::Switch(s2)), r.1)
                },
            }
        },
        _ => (net, None),
    }
}

/// The data flood from port `i` upward: every occupied port except the
/// ingress port is tried in ascending index order, and the first non-empty
/// reply is returned at once; later ports are not tried.
pub open spec fn spec_flood(
    net: Seq<DeviceV>,
    ports: Seq<Option<usize>>,
    i: int,
    ingress: usize,
    p: PacketV,
    ttl: nat,
) -> (Seq<DeviceV>, Option<PacketV>)
    decreases ttl, 2int, ports.len() - i,
{
    if i < 0 || i >= ports.len() {
        (net, None)
    } else {
        match ports[i] {
            Some(node) => {
                if i != ingress {
                    let r = spec_recv_packet(net, node, p, ttl);
                    if r.1 is Some {
                        r
                    } else {
                        spec_flood(r.0, ports, i + 1, ingress, p, ttl)
                    }
                } else {
                    spec_flood(net, ports, i + 1, ingress, p, ttl)
                }
            },
            None => spec_flood(net, ports, i + 1, ingress, p, ttl),
        }
    }
}

/// What delivering a data packet to the device at `node` does: a host
/// receives it, a router relays it, a switch plugged into a port is never a
/// direct endpoint and drops it, as does a dead index.
pub open spec fn spec_recv_packet(net: Seq<DeviceV>, node: usize, p: PacketV, ttl: nat) -> (
    Seq<DeviceV>,
    Option<PacketV>,
)
    decreases ttl, 1int, 0int,
{
    match spec_dev(net, node) {
        Some(DeviceV::Host(_)) => spec_host_receive(net, node, p),
        Some(DeviceV::Router(_)) => spec_forward(net, node, p, ttl),
        _ => (net, None),
    }
}

/// What a router does with a delivered packet: a frame not addressed to one
/// of its interface MACs is ignored; an accepted frame is logged, the first
/// routing row matching the destination picks the egress switch, port and
/// next hop (the empty next-hop sentinel meaning the destination itself), the
/// next hop's MAC is taken from the ARP cache or resolved by a fresh ARP
/// exchange, and the packet is relayed with rewritten L2 addressing through
/// the egress switch, one hop of `ttl` spent. A reply coming back is logged
/// and has its L2 addressing restored toward the original sender. A missing
/// route, a failed resolution, a dead egress or an exhausted hop budget drops
/// the packet.
pub open spec fn spec_forward(net: Seq<DeviceV>, router: usize, p: PacketV, ttl: nat) -> (
    Seq<DeviceV>,
    Option<PacketV>,
)
    decreases ttl, 0int, 0int,
{
    match spec_dev(net, router) {
        Some(DeviceV::Router(r)) => {
            if !crate::router::spec_has_interface(r.routing_table, p.dest_mac) {
                (net, None)
            } else {
                let r1 = RouterV { incoming_packets: r.incoming_packets.push(p), ..r };
                match crate::router::spec_find_route(r1.routing_table, p.dest_ip) {
                    None => (net.update(router as int, DeviceV::Router(r1)), None),
                    Some(e) => {
                        let hop_ip = if e.next_hop_ip.len() == 0 {
                            p.dest_ip
                        } else {
                            e.next_hop_ip
                        };
                        let resolved = match spec_assoc(r1.arp_table, hop_ip) {
                            Some(mac) => (net, r1, Some(mac)),
                            None => spec_router_arp_step(
                                net,
                                r1,
                                hop_ip,
                                e.local_mac,
                                e.switch,
                                e.port,
                            ),
                        };
                        match resolved.2 {
                            None => (
                                resolved.0.update(router as int, DeviceV::Router(resolved.1)),
                                None,
                            ),
                            Some(hop_mac) => {
                                let fwd = crate::packet::spec_rebuild(p, e.local_mac, hop_mac);
                                if !(spec_dev(resolved.0, e.switch) matches Some(
                                    DeviceV::Switch(_),
                                )) || ttl == 0 {
                                    (
                                        resolved.0.update(
                                            router as int,
                                            DeviceV::Router(resolved.1),
                                        ),
                                        None,
                                    )
                                } else {
                                    let r3 = RouterV {
                                        outgoing_packets: resolved.1.outgoing_packets.push(fwd),
                                        ..resolved.1
                                    };
                                    let res = spec_process_packet(
                                        resolved.0,
                                        e.switch,
                                        fwd,
                                        e.port,
                                        (ttl - 1) as nat,
                                    );
                                    match res.1 {
                                        None => (
                                            res.0.update(router as int, DeviceV::Router(r3)),
                                            None,
                                        ),
                                        Some(resp) => {
                                            let r4 = RouterV {
                                                incoming_packets: r3.incoming_packets.push(resp),
                                                ..r3
                                            };
                                            let back = crate::packet::spec_rebuild(
                                                resp,
                                                p.dest_mac,
                                                p.src_mac,
                                            );
                                            let r5 = RouterV {
                                                outgoing_packets: r4.outgoing_packets.push(back),
                                                ..r4
                                            };
                                            (
                                                res.0.update(router as int, DeviceV::Router(r5)),
                                                Some(back),
                                            )
                                        },
                                    }
                                }
                            },
                        }
                    },
                }
            }
        },
        _ => (net, None),
    }
}

/// What `send_packet` does: the host at `host` routes `data` toward
/// `dest_ip` — straight to it on the local subnet, else to the lowest-metric
/// gateway — resolves the first hop's MAC from cache or by ARP, logs and
/// submits the packet through its switch with `ttl` hops of budget, and logs
/// any reply that comes back. With no route, no ARP answer or a dead switch
/// the send is dropped.
pub open spec fn spec_send_packet(
    net: Seq<DeviceV>,
    host: usize,
    dest_ip: Seq<char>,
    data: Seq<u8>,
    ttl: nat,
) -> Seq<DeviceV> {
    match spec_dev(net, host) {
        Some(DeviceV::Host(h)) => {
            match crate::host::spec_next_hop(h, dest_ip) {
                None => net,
                Some(hop_ip) => {
                    let resolved = match spec_assoc(h.arp_table, hop_ip) {
                        Some(mac) => (net, h, Some(mac)),
                        None => spec_host_arp_step(net, h, hop_ip),
                    };
                    match resolved.2 {
                        None => resolved.0.update(host as int, DeviceV::Host(resolved.1)),
                        Some(mac) => {
                            let req = PacketV {
                                src_mac: h.mac_address,
                                dest_mac: mac,
                                src_ip: h.ip_address,
                                dest_ip: dest_ip,
                                data: data,
                                is_arp: false,
                            };
                            if !(spec_dev(resolved.0, h.switch) matches Some(
                                DeviceV::Switch(_),
                            )) {
                                resolved.0.update(host as int, DeviceV::Host(resolved.1))
                            } else {
                                let h2 = HostV {
                                    outgoing_packets: resolved.1.outgoing_packets.push(req),
                                    ..resolved.1
                                };
                                let res = spec_process_packet(
                                    resolved.0,
                                    h.switch,
                                    req,
                                    h.port,
                                    ttl,
                                );
                                match res.1 {
                                    Some(resp) => {
                                        let h3 = HostV {
                                            incoming_packets: h2.incoming_packets.push(resp),
                                            ..h2
                                        };
                                        res.0.update(host as int, DeviceV::Host(h3))
                                    },
                                    None => res.0.update(host as int, DeviceV::Host(h2)),
                                }
                            }
                        },
                    }
                },
            }
        },
        _ => net,
    }
}

/// The data path never adds or removes devices.
pub proof fn lemma_process_packet_len(net: Seq<DeviceV>, sw: usize, p: PacketV, port: usize, ttl: nat)
    ensures
        spec_process_packet(net, sw, p, port, ttl).0.len() == net.len(),
    decreases ttl, 3int, 0int,
{
    match spec_dev(net, sw) {
        Some(DeviceV::Switch(s)) => {
            let s2 = SwitchV { mac_table: spec_learn(s.mac_table, p.src_mac, port), ..s };
            match spec_assoc(s2.mac_table, p.dest_mac) {
                Some(tp) => {
                    if tp < s2.ports.len() {
                        match s2.ports[tp as int] {
                            Some(node) => {
                                lemma_recv_packet_len(net, node, p, ttl);
                            },
                            None => {},
                        }
                    }
                },
                None => {
                    lemma_flood_len(net, s2.ports, 0, port, p, ttl);
                },
            }
        },
        _ => {},
    }
}

pub proof fn lemma_flood_len(
    net: Seq<DeviceV>,
    ports: Seq<Option<usize>>,
    i: int,
    ingress: usize,
    p: PacketV,
    ttl: nat,
)
    ensures
        spec_flood(net, ports, i, ingress, p, ttl).0.len() == net.len(),
    decreases ttl, 2int, ports.len() - i,
{
    if 0 <= i < ports.len() {
        match ports[i] {
            Some(node) => {
                if i != ingress {
                    let r = spec_recv_packet(net, node, p, ttl);
                    lemma_recv_packet_len(net, node, p, ttl);
                    if r.1 is None {
                        lemma_flood_len(r.0, ports, i + 1, ingress, p, ttl);
                    }
                } else {
                    lemma_flood_len(net, ports, i + 1, ingress, p, ttl);
                }
            },
            None => {
                lemma_flood_len(net, ports, i + 1, ingress, p, ttl);
            },
        }
    }
}

pub proof fn lemma_recv_packet_len(net: Seq<DeviceV>, node: usize, p: PacketV, ttl: nat)
    ensures
        spec_recv_packet(net, node, p, ttl).0.len() == net.len(),
    decreases ttl, 1int, 0int,
{
    match spec_dev(net, node) {
        Some(DeviceV::Host(_)) => {
            lemma_host_receive_len(net, node, p);
        },
        Some(DeviceV::Router(_)) => {
            lemma_forward_len(net, node, p, ttl);
        },
        _ => {},
    }
}

pub proof fn lemma_host_receive_len(net: Seq<DeviceV>, host: usize, p: PacketV)
    ensures
        spec_host_receive(net, host, p).0.len() == net.len(),
{
    match spec_dev(net, host) {
        Some(DeviceV::Host(h)) => {
            if p.dest_ip == h.ip_address {
                let h1 = HostV { incoming_packets: h.incoming_packets.push(p), ..h };
                match crate::host::spec_next_hop(h1, p.src_ip) {
                    Some(hop_ip) => {
                        if spec_assoc(h1.arp_table, hop_ip) is None {
                            lemma_process_arp_len(
                                net,
                                h1.switch,
                                spec_host_arp_request(h1, hop_ip),
                                h1.port,
                            );
                        }
                    },
                    None => {},
                }
            }
        },
        _ => {},
    }
}

pub proof fn lemma_forward_len(net: Seq<DeviceV>, router: usize, p: PacketV, ttl: nat)
    ensures
        spec_forward(net, router, p, ttl).0.len() == net.len(),
    decreases ttl, 0int, 0int,
{
    match spec_dev(net, router) {
        Some(DeviceV::Router(r)) => {
            if crate::router::spec_has_interface(r.routing_table, p.dest_mac) {
                let r1 = RouterV { incoming_packets: r.incoming_packets.push(p), ..r };
                match crate::router::spec_find_route(r1.routing_table, p.dest_ip) {
                    Some(e) => {
                        let hop_ip = if e.next_hop_ip.len() == 0 {
                            p.dest_ip
                        } else {
                            e.next_hop_ip
                        };
                        if spec_assoc(r1.arp_table, hop_ip) is None {
                            lemma_process_arp_len(
                                net,
                                e.switch,
                                spec_router_arp_request(r1, hop_ip, e.local_mac),
                                e.port,
                            );
                        }
                        let resolved = match spec_assoc(r1.arp_table, hop_ip) {
                            Some(mac) => (net, r1, Some(mac)),
                            None => spec_router_arp_step(
                                net,
                                r1,
                                hop_ip,
                                e.local_mac,
                                e.switch,
                                e.port,
                            ),
                        };
                        match resolved.2 {
                            Some(hop_mac) => {
                                let fwd = crate::packet::spec_rebuild(p, e.local_mac, hop_mac);
                                if (spec_dev(resolved.0, e.switch) matches Some(
                                    DeviceV::Switch(_),
                                )) && ttl > 0 {
                                    lemma_process_packet_len(
                                        resolved.0,
                                        e.switch,
                                        fwd,
                                        e.port,
                                        (ttl - 1) as nat,
                                    );
                                }
                            },
                            None => {},
                        }
                    },
                    None => {},
                }
            }
        },
        _ => {},
    }
}

impl Network {
    /// An empty registry.
    pub fn new() -> (res: Network)
        ensures
            res@ == Seq::<DeviceV>::empty(),
    {
        let res = Network { devices: Vec::new() };
        assert(res@ =~= Seq::<DeviceV>::empty());
        res
    }

    /// Adds a device to the registry and returns its stable index.
    pub fn register(&mut self, d: Device) -> (i: usize)
        ensures
            final(self)@ == old(self)@.push(d@),
            i == old(self)@.len(),
    {
        let ghost dv = d@;
        let ghost pre = self@;
        let i = self.devices.len();
        self.devices.push(d);
        assert(self@ =~= pre.push(dv));
        i
    }

    /// A copy of the device at a live index.
    fn clone_device(&self, i: usize) -> (d: Device)
        requires
            i < self@.len(),
        ensures
            d@ == self@[i as int],
    {
        let d = self.devices[i].clone();
        assert(self@[i as int] == self.devices@[i as int].deep_view());
        d
    }

    /// Replaces the device at a live index.
    fn set_device(&mut self, i: usize, d: Device)
        requires
            i < old(self)@.len(),
        ensures
            final(self)@ == old(self)@.update(i as int, d@),
    {
        let ghost dv = d@;
        let ghost pre = self@;
        self.devices[i] = d;
        assert forall|j: int| 0 <= j < pre.len() implies self@[j] == pre.update(i as int, dv)[j] by {
            assert(self@[j] == self.devices@[j].deep_view());
            if j != i {
                assert(self.devices@[j] == old(self).devices@[j]);
                assert(pre[j] == old(self).devices@[j].deep_view());
            }
        }
        assert(self@ =~= pre.update(i as int, dv));
    }

    /// Plugs the device with index `node` into the first free port of the
    /// switch at index `sw`; `None` reports a full switch or an index that is
    /// not a live switch.
    pub fn add_device(&mut self, sw: usize, node: usize) -> (r: Option<usize>)
        ensures
            match spec_dev(old(self)@, sw) {
                Some(DeviceV::Switch(s)) => {
                    match r {
                        Some(i) => {
                            &&& 0 <= i < s.ports.len()
                            &&& s.ports[i as int] is None
                            &&& forall|j: int| 0 <= j < i ==> s.ports[j] is Some
                            &&& final(self)@ == old(self)@.update(
                                sw as int,
                                DeviceV::Switch(
                                    SwitchV { ports: s.ports.update(i as int, Some(node)), ..s },
                                ),
                            )
                        },
                        None => {
                            &&& final(self)@ == old(self)@
                            &&& forall|j: int| 0 <= j < s.ports.len() ==> s.ports[j] is Some
                        },
                    }
                },
                _ => final(self)@ == old(self)@ && r is None,
            },
    {
        if sw >= self.devices.len() {
            return None;
        }
        let dev = self.clone_device(sw);
        match dev {
            Device::Switch(mut s) => {
                let r = s.add_device(node);
                match r {
                    Some(i) => {
                        self.set_device(sw, Device::Switch(s));
                        Some(i)
                    },
                    None => None,
                }
            },
            _ => None,
        }
    }

    /// Delivers an ARP request to the device at `node`, which answers locally
    /// as its kind prescribes; a switch, or a dead index, never replies.
    pub fn receive_arp_request(&mut self, node: usize, packet: &Packet) -> (r: Option<Packet>)
        ensures
            final(self)@ == spec_recv_arp(old(self)@, node, packet@).0,
            r.deep_view() == spec_recv_arp(old(self)@, node, packet@).1,
    {
        if node >= self.devices.len() {
            return None;
        }
        let mut dev = self.clone_device(node);
        let r = dev.receive_arp_request(packet);
        self.set_device(node, dev);
        r
    }

    /// Runs an ARP request through the switch at `sw` as it arrives on
    /// `port`: the switch learns the source MAC, floods every other occupied
    /// port in ascending order, and hands back the first reply.
    #[verifier::loop_isolation(false)]
    pub fn process_arp_request(&mut self, sw: usize, packet: &Packet, port: usize) -> (r: Option<
        Packet,
    >)
        ensures
            final(self)@ == spec_process_arp(old(self)@, sw, packet@, port).0,
            r.deep_view() == spec_process_arp(old(self)@, sw, packet@, port).1,
    {
        if sw >= self.devices.len() {
            return None;
        }
        let dev = self.clone_device(sw);
        match dev {
            Device::Switch(mut s) => {
                s.learn(&packet.src_mac, port);
                let ghost net0 = self@;
                let ghost ports_v = s@.ports;
                let n = s.ports.len();
                let mut i: usize = 0;
                assert(spec_flood_arp(net0, ports_v, 0, port, packet@) == spec_flood_arp(
                    self@,
                    ports_v,
                    0,
                    port,
                    packet@,
                ));
                while i < n
                    invariant
                        self@.len() == net0.len(),
                        0 <= i <= n,
                        spec_flood_arp(net0, ports_v, 0, port, packet@) == spec_flood_arp(
                            self@,
                            ports_v,
                            i as int,
                            port,
                            packet@,
                        ),
                    decreases n - i,
                {
                    let slot = s.ports[i];
                    match slot {
                        Some(node) => {
                            if i != port {
                                let ghost before = self@;
                                let reply = self.receive_arp_request(node, packet);
                                proof {
                                    assert(spec_flood_arp(before, ports_v, i as int, port, packet@)
                                        == if spec_recv_arp(before, node, packet@).1 is Some {
                                        spec_recv_arp(before, node, packet@)
                                    } else {
                                        spec_flood_arp(
                                            spec_recv_arp(before, node, packet@).0,
                                            ports_v,
                                            i as int + 1,
                                            port,
                                            packet@,
                                        )
                                    });
                                }
                                if reply.is_some() {
                                    self.set_device(sw, Device::Switch(s));
                                    return reply;
                                }
                            }
                        },
                        None => {},
                    }
                    i = i + 1;
                }
                assert(spec_flood_arp(self@, ports_v, n as int, port, packet@) == (self@, None::<
                    PacketV,
                >));
                self.set_device(sw, Device::Switch(s));
                None
            },
            _ => None,
        }
    }

    /// One ARP resolution made by the host `h`, which is checked out of the
    /// registry while its own registry slot still holds its old state.
    fn host_arp_step(&mut self, h: &mut Host, dest_ip: &String) -> (r: Option<String>)
        ensures
            final(self)@ == spec_host_arp_step(old(self)@, old(h)@, dest_ip@).0,
            final(h)@ == spec_host_arp_step(old(self)@, old(h)@, dest_ip@).1,
            r.deep_view() == spec_host_arp_step(old(self)@, old(h)@, dest_ip@).2,
    {
        let request = Packet::new(
            h.mac_address.as_str(),
            "UNKNOWN",
            h.ip_address.as_str(),
            dest_ip.as_str(),
            Vec::new(),
            true,
        );
        assert(request@ == spec_host_arp_request(h@, dest_ip@));
        let response = self.process_arp_request(h.switch, &request, h.port);
        match response {
            Some(resp) => {
                upsert_str(&mut h.arp_table, dest_ip, resp.src_mac.clone());
                Some(resp.src_mac)
            },
            None => None,
        }
    }

    /// One ARP resolution made by the router `r`, which is checked out of the
    /// registry while its own registry slot still holds its old state.
    fn router_arp_step(
        &mut self,
        r: &mut Router,
        dest_ip: &String,
        src_mac: &String,
        sw: usize,
        port: usize,
    ) -> (res: Option<String>)
        ensures
            final(self)@ == spec_router_arp_step(old(self)@, old(r)@, dest_ip@, src_mac@, sw, port).0,
            final(r)@ == spec_router_arp_step(old(self)@, old(r)@, dest_ip@, src_mac@, sw, port).1,
            res.deep_view() == spec_router_arp_step(
                old(self)@,
                old(r)@,
                dest_ip@,
                src_mac@,
                sw,
                port,
            ).2,
    {
        let request = Packet::new(
            src_mac.as_str(),
            "UNKNOWN",
            r.ip_address.as_str(),
            dest_ip.as_str(),
            Vec::new(),
            true,
        );
        assert(request@ == spec_router_arp_request(r@, dest_ip@, src_mac@));
        let response = self.process_arp_request(sw, &request, port);
        match response {
            Some(resp) => {
                upsert_str(&mut r.arp_table, dest_ip, resp.src_mac.clone());
                Some(resp.src_mac)
            },
            None => None,
        }
    }

    /// The host at `host` broadcasts an ARP request for `dest_ip` through its
    /// attached switch and caches and returns the resolved MAC, if any device
    /// answered.
    pub fn send_arp_request(&mut self, host: usize, dest_ip: &String) -> (r: Option<String>)
        ensures
            final(self)@ == spec_send_arp(old(self)@, host, dest_ip@).0,
            r.deep_view() == spec_send_arp(old(self)@, host, dest_ip@).1,
    {
        if host >= self.devices.len() {
            return None;
        }
        let dev = self.clone_device(host);
        match dev {
            Device::Host(mut h) => {
                proof {
                    lemma_process_arp_len(self@, h@.switch, spec_host_arp_request(h@, dest_ip@), h@.port);
                }
                let r = self.host_arp_step(&mut h, dest_ip);
                self.set_device(host, Device::Host(h));
                r
            },
            _ => None,
        }
    }

    /// The router at `router` broadcasts an ARP request for `dest_ip` through
    /// port `port` of the switch at `sw`, sending from interface MAC
    /// `src_mac`, and caches and returns the resolved MAC, if any device
    /// answered.
    pub fn router_send_arp_request(
        &mut self,
        router: usize,
        dest_ip: &String,
        src_mac: &String,
        sw: usize,
        port: usize,
    ) -> (r: Option<String>)
        ensures
            final(self)@ == spec_router_send_arp(old(self)@, router, dest_ip@, src_mac@, sw, port).0,
            r.deep_view() == spec_router_send_arp(old(self)@, router, dest_ip@, src_mac@, sw, port).1,
    {
        if router >= self.devices.len() {
            return None;
        }
        let dev = self.clone_device(router);
        match dev {
            Device::Router(mut rt) => {
                proof {
                    lemma_process_arp_len(
                        self@,
                        sw,
                        spec_router_arp_request(rt@, dest_ip@, src_mac@),
                        port,
                    );
                }
                let r = self.router_arp_step(&mut rt, dest_ip, src_mac, sw, port);
                self.set_device(router, Device::Router(rt));
                r
            },
            _ => None,
        }
    }

    /// Which kind of device sits at a live index.
    fn device_kind(&self, i: usize) -> (k: u8)
        requires
            i < self@.len(),
        ensures
            (k == 0) == (self@[i as int] is Host),
            (k == 1) == (self@[i as int] is Router),
            (k == 2) == (self@[i as int] is Switch),
    {
        proof {
            assert(self@[i as int] == self.devices@[i as int].deep_view());
        }
        match &self.devices[i] {
            Device::Host(_) => 0,
            Device::Router(_) => 1,
            Device::Switch(_) => 2,
        }
    }

    /// Whether a live switch sits at the index.
    fn is_switch_at(&self, i: usize) -> (r: bool)
        ensures
            r == (spec_dev(self@, i) matches Some(DeviceV::Switch(_))),
    {
        if i >= self.devices.len() {
            return false;
        }
        proof {
            assert(self@[i as int] == self.devices@[i as int].deep_view());
        }
        match &self.devices[i] {
            Device::Switch(_) => true,
            _ => false,
        }
    }

    /// Hands a delivered packet to the host at `host`: accepted only if
    /// addressed to the host's IP, then logged and echoed back toward its
    /// sender along a freshly computed return route.
    pub fn host_receive(&mut self, host: usize, packet: &Packet) -> (r: Option<Packet>)
        ensures
            final(self)@ == spec_host_receive(old(self)@, host, packet@).0,
            r.deep_view() == spec_host_receive(old(self)@, host, packet@).1,
    {
        if host >= self.devices.len() {
            return None;
        }
        let dev = self.clone_device(host);
        match dev {
            Device::Host(mut h) => {
                if !(packet.dest_ip == h.ip_address) {
                    return None;
                }
                log_packet(&mut h.incoming_packets, packet.clone());
                let hop = h.next_hop(&packet.src_ip);
                match hop {
                    None => {
                        self.set_device(host, Device::Host(h));
                        None
                    },
                    Some(hop_ip) => {
                        let cached = lookup_str(&h.arp_table, &hop_ip);
                        match cached {
                            Some(mac) => {
                                let reply = Packet::new(
                                    h.mac_address.as_str(),
                                    mac.as_str(),
                                    h.ip_address.as_str(),
                                    packet.src_ip.as_str(),
                                    vstd::slice::slice_to_vec(packet.data.as_slice()),
                                    false,
                                );
                                log_packet(&mut h.outgoing_packets, reply.clone());
                                self.set_device(host, Device::Host(h));
                                Some(reply)
                            },
                            None => {
                                let ghost net0 = self@;
                                let ghost h1v = h@;
                                let resolved = self.host_arp_step(&mut h, &hop_ip);
                                proof {
                                    lemma_process_arp_len(
                                        net0,
                                        h1v.switch,
                                        spec_host_arp_request(h1v, hop_ip@),
                                        h1v.port,
                                    );
                                }
                                match resolved {
                                    Some(mac) => {
                                        let reply = Packet::new(
                                            h.mac_address.as_str(),
                                            mac.as_str(),
                                            h.ip_address.as_str(),
                                            packet.src_ip.as_str(),
                                            vstd::slice::slice_to_vec(packet.data.as_slice()),
                                            false,
                                        );
                                        log_packet(&mut h.outgoing_packets, reply.clone());
                                        self.set_device(host, Device::Host(h));
                                        Some(reply)
                                    },
                                    None => {
                                        self.set_device(host, Device::Host(h));
                                        None
                                    },
                                }
                            },
                        }
                    },
                }
            },
            _ => None,
        }
    }

    /// Delivers a data packet to the device at `node`: a host receives it, a
    /// router relays it, anything else drops it.
    pub fn receive_packet(&mut self, node: usize, packet: &Packet, ttl: u64) -> (r: Option<Packet>)
        ensures
            final(self)@ == spec_recv_packet(old(self)@, node, packet@, ttl as nat).0,
            r.deep_view() == spec_recv_packet(old(self)@, node, packet@, ttl as nat).1,
        decreases ttl, 1int, 0int,
    {
        if node >= self.devices.len() {
            return None;
        }
        let kind = self.device_kind(node);
        if kind == 0 {
            self.host_receive(node, packet)
        } else if kind == 1 {
            self.forward_packet(node, packet, ttl)
        } else {
            None
        }
    }

    /// Runs a data packet through the switch at `sw` as it arrives on `port`:
    /// the switch learns the source MAC, then either delivers to the single
    /// port its bridge table maps the destination MAC to, or floods every
    /// other occupied port in ascending order and hands back the first reply.
    /// `ttl` is the hop budget spent one unit per router relay.
    #[verifier::loop_isolation(false)]
    pub fn process_packet(&mut self, sw: usize, packet: &Packet, port: usize, ttl: u64) -> (r:
        Option<Packet>)
        ensures
            final(self)@ == spec_process_packet(old(self)@, sw, packet@, port, ttl as nat).0,
            r.deep_view() == spec_process_packet(old(self)@, sw, packet@, port, ttl as nat).1,
        decreases ttl, 3int, 0int,
    {
        if sw >= self.devices.len() {
            return None;
        }
        let dev = self.clone_device(sw);
        match dev {
            Device::Switch(mut s) => {
                s.learn(&packet.src_mac, port);
                let target = s.lookup_mac(&packet.dest_mac);
                match target {
                    Some(tp) => {
                        if tp < s.ports.len() {
                            let slot = s.ports[tp];
                            match slot {
                                Some(node) => {
                                    proof {
                                        lemma_recv_packet_len(self@, node, packet@, ttl as nat);
                                    }
                                    let r = self.receive_packet(node, packet, ttl);
                                    self.set_device(sw, Device::Switch(s));
                                    r
                                },
                                None => {
                                    self.set_device(sw, Device::Switch(s));
                                    None
                                },
                            }
                        } else {
                            self.set_device(sw, Device::Switch(s));
                            None
                        }
                    },
                    None => {
                        let ghost net0 = self@;
                        let ghost ports_v = s@.ports;
                        let n = s.ports.len();
                        let mut i: usize = 0;
                        while i < n
                            invariant
                                self@.len() == net0.len(),
                                0 <= i <= n,
                                spec_flood(net0, ports_v, 0, port, packet@, ttl as nat)
                                    == spec_flood(self@, ports_v, i as int, port, packet@, ttl as nat),
                            decreases n - i,
                        {
                            let slot = s.ports[i];
                            match slot {
                                Some(node) => {
                                    if i != port {
                                        let ghost before = self@;
                                        proof {
                                            lemma_recv_packet_len(self@, node, packet@, ttl as nat);
                                        }
                                        let reply = self.receive_packet(node, packet, ttl);
                                        proof {
                                            assert(spec_flood(
                                                before,
                                                ports_v,
                                                i as int,
                                                port,
                                                packet@,
                                                ttl as nat,
                                            ) == if spec_recv_packet(before, node, packet@, ttl as nat).1 is Some {
                                                spec_recv_packet(before, node, packet@, ttl as nat)
                                            } else {
                                                spec_flood(
                                                    spec_recv_packet(before, node, packet@, ttl as nat).0,
                                                    ports_v,
                                                    i as int + 1,
                                                    port,
                                                    packet@,
                                                    ttl as nat,
                                                )
                                            });
                                        }
                                        if reply.is_some() {
                                            self.set_device(sw, Device::Switch(s));
                                            return reply;
                                        }
                                    }
                                },
                                None => {},
                            }
                            i = i + 1;
                        }
                        assert(spec_flood(self@, ports_v, n as int, port, packet@, ttl as nat)
                            == (self@, None::<PacketV>));
                        self.set_device(sw, Device::Switch(s));
                        None
                    },
                }
            },
            _ => None,
        }
    }

    /// Relays a delivered packet through the router at `router`: accepted
    /// only if the frame is addressed to one of the router's interface MACs,
    /// then routed by the first matching table row, re-addressed at L2 and
    /// submitted to the egress switch, spending one hop of `ttl`; a reply
    /// coming back is re-addressed toward the original sender and propagated.
    pub fn forward_packet(&mut self, router: usize, packet: &Packet, ttl: u64) -> (r: Option<
        Packet,
    >)
        ensures
            final(self)@ == spec_forward(old(self)@, router, packet@, ttl as nat).0,
            r.deep_view() == spec_forward(old(self)@, router, packet@, ttl as nat).1,
        decreases ttl, 0int, 0int,
    {
        if router >= self.devices.len() {
            return None;
        }
        let dev = self.clone_device(router);
        match dev {
            Device::Router(mut rt) => {
                if !rt.has_interface(&packet.dest_mac) {
                    return None;
                }
                log_packet(&mut rt.incoming_packets, packet.clone());
                let route = rt.find_route(&packet.dest_ip);
                match route {
                    None => {
                        self.set_device(router, Device::Router(rt));
                        None
                    },
                    Some(idx) => {
                        let e = rt.routing_table[idx].clone();
                        proof {
                            assert(rt@.routing_table[idx as int]
                                == rt.routing_table@[idx as int].deep_view());
                        }
                        let hop_ip: String = if e.next_hop_ip.as_str().unicode_len() == 0 {
                            packet.dest_ip.clone()
                        } else {
                            e.next_hop_ip.clone()
                        };
                        let cached = lookup_str(&rt.arp_table, &hop_ip);
                        let ghost net0 = self@;
                        let ghost r1v = rt@;
                        let mac_opt: Option<String> = match cached {
                            Some(m) => Some(m),
                            None => self.router_arp_step(
                                &mut rt,
                                &hop_ip,
                                &e.local_mac,
                                e.switch,
                                e.port,
                            ),
                        };
                        proof {
                            lemma_process_arp_len(
                                net0,
                                e@.switch,
                                spec_router_arp_request(r1v, hop_ip@, e@.local_mac),
                                e@.port,
                            );
                        }
                        match mac_opt {
                            None => {
                                self.set_device(router, Device::Router(rt));
                                None
                            },
                            Some(hop_mac) => {
                                let fwd = packet.rebuild_L3(e.local_mac.clone(), hop_mac);
                                let sw_ok = self.is_switch_at(e.switch);
                                if !sw_ok || ttl == 0 {
                                    self.set_device(router, Device::Router(rt));
                                    return None;
                                }
                                log_packet(&mut rt.outgoing_packets, fwd.clone());
                                let ghost net_a = self@;
                                let resp = self.process_packet(e.switch, &fwd, e.port, ttl - 1);
                                proof {
                                    lemma_process_packet_len(
                                        net_a,
                                        e@.switch,
                                        fwd@,
                                        e@.port,
                                        (ttl - 1) as nat,
                                    );
                                }
                                match resp {
                                    None => {
                                        self.set_device(router, Device::Router(rt));
                                        None
                                    },
                                    Some(resp) => {
                                        log_packet(&mut rt.incoming_packets, resp.clone());
                                        let back = resp.rebuild_L3(
                                            packet.dest_mac.clone(),
                                            packet.src_mac.clone(),
                                        );
                                        log_packet(&mut rt.outgoing_packets, back.clone());
                                        self.set_device(router, Device::Router(rt));
                                        Some(back)
                                    },
                                }
                            },
                        }
                    },
                }
            },
            _ => None,
        }
    }

    /// The host at `host` sends `data` toward `dest_ip`: the first hop is the
    /// destination itself on the local subnet, else the lowest-metric
    /// gateway; the hop's MAC comes from the ARP cache or a fresh ARP
    /// exchange; the packet is logged and submitted through the host's
    /// switch with `ttl` hops of budget, and any reply is logged. With no
    /// route, no ARP answer or a dead switch nothing is sent.
    pub fn send_packet(&mut self, host: usize, dest_ip: &String, data: Vec<u8>, ttl: u64)
        ensures
            final(self)@ == spec_send_packet(old(self)@, host, dest_ip@, data@, ttl as nat),
    {
        if host >= self.devices.len() {
            return ;
        }
        let dev = self.clone_device(host);
        match dev {
            Device::Host(mut h) => {
                let hop = h.next_hop(dest_ip);
                match hop {
                    None => {},
                    Some(hop_ip) => {
                        let cached = lookup_str(&h.arp_table, &hop_ip);
                        let ghost net0 = self@;
                        let ghost h0 = h@;
                        let mac_opt: Option<String> = match cached {
                            Some(m) => Some(m),
                            None => self.host_arp_step(&mut h, &hop_ip),
                        };
                        proof {
                            lemma_process_arp_len(
                                net0,
                                h0.switch,
                                spec_host_arp_request(h0, hop_ip@),
                                h0.port,
                            );
                        }
                        match mac_opt {
                            None => {
                                self.set_device(host, Device::Host(h));
                            },
                            Some(mac) => {
                                let request = Packet::new(
                                    h.mac_address.as_str(),
                                    mac.as_str(),
                                    h.ip_address.as_str(),
                                    dest_ip.as_str(),
                                    data,
                                    false,
                                );
                                let sw_ok = self.is_switch_at(h.switch);
                                if !sw_ok {
                                    self.set_device(host, Device::Host(h));
                                    return ;
                                }
                                log_packet(&mut h.outgoing_packets, request.clone());
                                let ghost net_a = self@;
                                let resp = self.process_packet(h.switch, &request, h.port, ttl);
                                proof {
                                    lemma_process_packet_len(
                                        net_a,
                                        h0.switch,
                                        request@,
                                        h0.port,
                                        ttl as nat,
                                    );
                                }
                                match resp {
                                    Some(resp) => {
                                        log_packet(&mut h.incoming_packets, resp);
                                    },
                                    None => {},
                                }
                                self.set_device(host, Device::Host(h));
                            },
                        }
                    },
                }
            },
            _ => {},
        }
    }
}

} // verus!
