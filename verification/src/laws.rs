use vstd::prelude::*;
use crate::device::DeviceV;
use crate::host::HostV;
use crate::packet::PacketV;
use crate::switch::SwitchV;
use crate::network::{spec_flood, spec_flood_arp, spec_process_packet, spec_recv_arp,
    spec_recv_packet};
use crate::tables::{lemma_assoc_learn, spec_assoc, spec_learn};

verus! {

// The bridge-table laws of the switch, and the delivery laws of the data
// path, stated over the specification functions that the engine's contracts
// use.

/// A switch that processes a packet learns its source MAC: afterwards the
/// bridge table is exactly the learned table, and the source MAC maps to the
/// port it was already learned on, or else to the ingress port. First write
/// wins: an existing mapping is never overwritten.
pub proof fn law_learning_records_ingress(
    net: Seq<DeviceV>,
    sw: usize,
    p: PacketV,
    port: usize,
    ttl: nat,
)
    requires
        sw < net.len(),
        net[sw as int] is Switch,
    ensures
        ({
            let s = net[sw as int]->Switch_0;
            let net1 = spec_process_packet(net, sw, p, port, ttl).0;
            &&& net1.len() == net.len()
            &&& net1[sw as int] is Switch
            &&& net1[sw as int]->Switch_0.mac_table == spec_learn(s.mac_table, p.src_mac, port)
            &&& net1[sw as int]->Switch_0.ports == s.ports
            &&& spec_assoc(net1[sw as int]->Switch_0.mac_table, p.src_mac) == match spec_assoc(
                s.mac_table,
                p.src_mac,
            ) {
                Some(q) => Some(q),
                None => Some(port),
            }
        }),
{
    let s = net[sw as int]->Switch_0;
    let s2 = SwitchV { mac_table: spec_learn(s.mac_table, p.src_mac, port), ..s };
    crate::network::lemma_process_packet_len(net, sw, p, port, ttl);
    lemma_assoc_learn(s.mac_table, p.src_mac, port, p.src_mac);
    let net1 = spec_process_packet(net, sw, p, port, ttl).0;
    match spec_assoc(s2.mac_table, p.dest_mac) {
        Some(tp) => {
            if tp < s2.ports.len() {
                match s2.ports[tp as int] {
                    Some(node) => {
                        crate::network::lemma_recv_packet_len(net, node, p, ttl);
                        assert(net1[sw as int] == DeviceV::Switch(s2));
                    },
                    None => {
                        assert(net1[sw as int] == DeviceV::Switch(s2));
                    },
                }
            } else {
                assert(net1[sw as int] == DeviceV::Switch(s2));
            }
        },
        None => {
            crate::network::lemma_flood_len(net, s2.ports, 0, port, p, ttl);
            assert(net1[sw as int] == DeviceV::Switch(s2));
        },
    }
}

/// Learning is idempotent: a second processing of an identical packet leaves
/// the bridge table of the switch exactly as the first left it.
pub proof fn law_learning_idempotent(
    net: Seq<DeviceV>,
    sw: usize,
    p: PacketV,
    port: usize,
    ttl: nat,
    ttl2: nat,
)
    requires
        sw < net.len(),
        net[sw as int] is Switch,
    ensures
        ({
            let net1 = spec_process_packet(net, sw, p, port, ttl).0;
            let net2 = spec_process_packet(net1, sw, p, port, ttl2).0;
            net2[sw as int]->Switch_0.mac_table == net1[sw as int]->Switch_0.mac_table
        }),
{
    let s = net[sw as int]->Switch_0;
    law_learning_records_ingress(net, sw, p, port, ttl);
    let net1 = spec_process_packet(net, sw, p, port, ttl).0;
    law_learning_records_ingress(net1, sw, p, port, ttl2);
    let m1 = net1[sw as int]->Switch_0.mac_table;
    lemma_assoc_learn(s.mac_table, p.src_mac, port, p.src_mac);
    assert(spec_assoc(m1, p.src_mac) is Some);
    assert(spec_learn(m1, p.src_mac, port) == m1);
}

/// Unicast delivery: when, after learning, the destination MAC is mapped to
/// a live occupied port, processing delivers to exactly the device on that
/// port — the result and every state change come from that one delivery,
/// beside the switch's own learning — and no other port is tried.
pub proof fn law_unicast(
    net: Seq<DeviceV>,
    sw: usize,
    p: PacketV,
    port: usize,
    ttl: nat,
    tp: usize,
    node: usize,
)
    requires
        sw < net.len(),
        net[sw as int] is Switch,
        spec_assoc(
            spec_learn(net[sw as int]->Switch_0.mac_table, p.src_mac, port),
            p.dest_mac,
        ) == Some(tp),
        tp < net[sw as int]->Switch_0.ports.len(),
        net[sw as int]->Switch_0.ports[tp as int] == Some(node),
    ensures
        ({
            let s = net[sw as int]->Switch_0;
            let s2 = SwitchV { mac_table: spec_learn(s.mac_table, p.src_mac, port), ..s };
            let r = spec_recv_packet(net, node, p, ttl);
            spec_process_packet(net, sw, p, port, ttl) == (
                r.0.update(sw as int, DeviceV::Switch(s2)),
                r.1,
            )
        }),
{
}

/// A device that is not a packet's addressee: a host whose IP is not the
/// packet's destination, a router none of whose interface MACs is the
/// packet's destination MAC, or a switch plugged into a port.
pub open spec fn spec_rejects(d: DeviceV, p: PacketV) -> bool {
    match d {
        DeviceV::Host(h) => p.dest_ip != h.ip_address,
        DeviceV::Router(r) => !crate::router::spec_has_interface(r.routing_table, p.dest_mac),
        DeviceV::Switch(_) => true,
    }
}

/// Port `k` holds no device that would claim packet `p`: it is empty, or the
/// device it holds is not the packet's addressee.
pub open spec fn port_rejects(net: Seq<DeviceV>, ports: Seq<Option<usize>>, k: int, p: PacketV)
    -> bool {
    ports[k] matches Some(n) ==> n < net.len() && spec_rejects(net[n as int], p)
}

/// Delivering a data packet to a device that is not its addressee changes
/// nothing and yields no reply.
pub proof fn lemma_reject_unchanged(net: Seq<DeviceV>, node: usize, p: PacketV, ttl: nat)
    requires
        node < net.len(),
        spec_rejects(net[node as int], p),
    ensures
        spec_recv_packet(net, node, p, ttl) == (net, None::<PacketV>),
{
}

/// Flooding tries the ports in ascending index order and stops at the first
/// non-empty reply: if every occupied port before `j` (other than the
/// ingress port) holds a device that is not the packet's addressee, the
/// flood's outcome is decided at port `j`: the delivery to the device there,
/// and only if that delivery yields no reply do later ports matter.
pub proof fn law_flood_in_order(
    net: Seq<DeviceV>,
    ports: Seq<Option<usize>>,
    i: int,
    ingress: usize,
    p: PacketV,
    ttl: nat,
    j: int,
    node: usize,
)
    requires
        0 <= i <= j < ports.len(),
        j != ingress,
        ports[j] == Some(node),
        node < net.len(),
        forall|k: int| i <= k < j && k != ingress ==> #[trigger] port_rejects(net, ports, k, p),
    ensures
        ({
            let r = spec_recv_packet(net, node, p, ttl);
            spec_flood(net, ports, i, ingress, p, ttl) == if r.1 is Some {
                r
            } else {
                spec_flood(r.0, ports, j + 1, ingress, p, ttl)
            }
        }),
    decreases j - i,
{
    if i < j {
        if i != ingress {
            assert(port_rejects(net, ports, i, p));
            match ports[i] {
                Some(n) => {
                    lemma_reject_unchanged(net, n, p, ttl);
                    law_flood_in_order(net, ports, i + 1, ingress, p, ttl, j, node);
                },
                None => {
                    law_flood_in_order(net, ports, i + 1, ingress, p, ttl, j, node);
                },
            }
        } else {
            law_flood_in_order(net, ports, i + 1, ingress, p, ttl, j, node);
        }
    }
}

/// The ingress port is never flooded to: a flood over ports of which every
/// occupied one is the ingress port delivers to no device and changes
/// nothing.
pub proof fn law_flood_spares_ingress(
    net: Seq<DeviceV>,
    ports: Seq<Option<usize>>,
    i: int,
    ingress: usize,
    p: PacketV,
    ttl: nat,
)
    requires
        forall|k: int| i <= k < ports.len() && ports[k] is Some ==> k == ingress,
    ensures
        spec_flood(net, ports, i, ingress, p, ttl) == (net, None::<PacketV>),
    decreases ports.len() - i,
{
    if 0 <= i < ports.len() {
        law_flood_spares_ingress(net, ports, i + 1, ingress, p, ttl);
    }
}

/// When, after learning, the destination MAC is unknown, processing floods:
/// the outcome is that of the flood over every other occupied port in
/// ascending order, beside the switch's own learning.
pub proof fn law_unknown_dest_floods(net: Seq<DeviceV>, sw: usize, p: PacketV, port: usize, ttl: nat)
    requires
        sw < net.len(),
        net[sw as int] is Switch,
        spec_assoc(
            spec_learn(net[sw as int]->Switch_0.mac_table, p.src_mac, port),
            p.dest_mac,
        ) is None,
    ensures
        ({
            let s = net[sw as int]->Switch_0;
            let s2 = SwitchV { mac_table: spec_learn(s.mac_table, p.src_mac, port), ..s };
            let r = spec_flood(net, s2.ports, 0, port, p, ttl);
            spec_process_packet(net, sw, p, port, ttl) == (
                r.0.update(sw as int, DeviceV::Switch(s2)),
                r.1,
            )
        }),
{
}

/// Port `k` holds no device that would answer ARP request `p`.
pub open spec fn port_no_answer(net: Seq<DeviceV>, ports: Seq<Option<usize>>, k: int, p: PacketV)
    -> bool {
    ports[k] matches Some(n) ==> n < net.len() && spec_recv_arp(net, n, p).1 is None
}

/// A device that does not answer an ARP request is left unchanged by it.
pub proof fn lemma_arp_no_answer_unchanged(net: Seq<DeviceV>, node: usize, p: PacketV)
    requires
        node < net.len(),
        spec_recv_arp(net, node, p).1 is None,
    ensures
        spec_recv_arp(net, node, p).0 == net,
{
    let d = net[node as int];
    let r = crate::device::spec_device_recv_arp(d, p);
    assert(r.0 == d);
    assert(net.update(node as int, d) =~= net);
}

/// An ARP flood reaches the first answering device: if no occupied port
/// before `pb` (other than the ingress port) holds a device that answers,
/// and the device on port `pb` does, the flood's outcome is exactly that
/// one device's answer.
pub proof fn lemma_flood_arp_first(
    net: Seq<DeviceV>,
    ports: Seq<Option<usize>>,
    i: int,
    ingress: usize,
    p: PacketV,
    pb: int,
    hb: usize,
)
    requires
        0 <= i <= pb < ports.len(),
        pb != ingress,
        ports[pb] == Some(hb),
        hb < net.len(),
        spec_recv_arp(net, hb, p).1 is Some,
        forall|k: int| i <= k < pb && k != ingress ==> #[trigger] port_no_answer(net, ports, k, p),
    ensures
        spec_flood_arp(net, ports, i, ingress, p) == spec_recv_arp(net, hb, p),
    decreases pb - i,
{
    if i < pb {
        if i != ingress {
            assert(port_no_answer(net, ports, i, p));
            match ports[i] {
                Some(n) => {
                    lemma_arp_no_answer_unchanged(net, n, p);
                    lemma_flood_arp_first(net, ports, i + 1, ingress, p, pb, hb);
                },
                None => {
                    lemma_flood_arp_first(net, ports, i + 1, ingress, p, pb, hb);
                },
            }
        } else {
            lemma_flood_arp_first(net, ports, i + 1, ingress, p, pb, hb);
        }
    }
}

/// The ARP round trip: host A broadcasts an ARP request for host B's IP over
/// the switch both are attached to; if no device on an earlier port answers
/// it, A learns B's MAC, and B's own ARP cache gains A's mapping as a side
/// effect. The switch, meanwhile, has learned A's MAC on A's port.
pub proof fn law_arp_round_trip(
    net: Seq<DeviceV>,
    sw: usize,
    ha: usize,
    hb: usize,
    pb: int,
    dest: Seq<char>,
)
    requires
        sw < net.len() && net[sw as int] is Switch,
        ha < net.len() && net[ha as int] is Host,
        hb < net.len() && net[hb as int] is Host,
        ha != hb && sw != ha && sw != hb,
        net[ha as int]->Host_0.switch == sw,
        net[hb as int]->Host_0.ip_address == dest,
        0 <= pb < net[sw as int]->Switch_0.ports.len(),
        net[sw as int]->Switch_0.ports[pb] == Some(hb),
        pb != net[ha as int]->Host_0.port,
        forall|k: int|
            0 <= k < pb && k != net[ha as int]->Host_0.port ==> #[trigger] port_no_answer(
                net,
                net[sw as int]->Switch_0.ports,
                k,
                crate::network::spec_host_arp_request(net[ha as int]->Host_0, dest),
            ),
    ensures
        ({
            let a = net[ha as int]->Host_0;
            let b = net[hb as int]->Host_0;
            let s = net[sw as int]->Switch_0;
            let r = crate::network::spec_send_arp(net, ha, dest);
            &&& r.1 == Some(b.mac_address)
            &&& r.0[ha as int] == DeviceV::Host(
                HostV {
                    arp_table: crate::tables::spec_upsert(a.arp_table, dest, b.mac_address),
                    ..a
                },
            )
            &&& r.0[hb as int] == DeviceV::Host(
                HostV {
                    arp_table: crate::tables::spec_upsert(b.arp_table, a.ip_address, a.mac_address),
                    ..b
                },
            )
            &&& r.0[sw as int] == DeviceV::Switch(
                SwitchV {
                    mac_table: spec_learn(s.mac_table, a.mac_address, a.port),
                    ..s
                },
            )
        }),
{
    let a = net[ha as int]->Host_0;
    let b = net[hb as int]->Host_0;
    let s = net[sw as int]->Switch_0;
    let req = crate::network::spec_host_arp_request(a, dest);
    assert(spec_recv_arp(net, hb, req).1 is Some);
    lemma_flood_arp_first(net, s.ports, 0, a.port, req, pb, hb);
    let s2 = SwitchV { mac_table: spec_learn(s.mac_table, req.src_mac, a.port), ..s };
    assert(spec_flood_arp(net, s2.ports, 0, a.port, req) == spec_recv_arp(
        net,
        hb,
        req,
    ));
}

/// Gateway `g` claims, with metric `m`, a network on `dest`'s subnet.
pub open spec fn spec_gateway_claims(
    rt: Seq<(Seq<char>, Seq<(Seq<char>, usize)>)>,
    dest: Seq<char>,
    g: Seq<char>,
    m: usize,
) -> bool {
    exists|i: int, j: int|
        0 <= i < rt.len() && 0 <= j < rt[i].1.len() && rt[i].0 == g && crate::addr::spec_same_subnet(
            dest,
            #[trigger] rt[i].1[j].0,
        ) && rt[i].1[j].1 == m
}

proof fn lemma_pick_net_props(
    gw: Seq<char>,
    nets: Seq<(Seq<char>, usize)>,
    dest: Seq<char>,
    acc: Option<(Seq<char>, usize)>,
)
    ensures
        ({
            let r = crate::host::spec_pick_net(gw, nets, dest, acc);
            &&& (acc matches Some(av) ==> r matches Some(rv) && rv.1 <= av.1)
            &&& (r matches Some(rv) ==> (acc == Some(rv)) || (rv.0 == gw && exists|j: int|
                0 <= j < nets.len() && crate::addr::spec_same_subnet(dest, #[trigger] nets[j].0)
                    && nets[j].1 == rv.1))
            &&& forall|j: int|
                0 <= j < nets.len() && crate::addr::spec_same_subnet(dest, #[trigger] nets[j].0)
                    ==> (r matches Some(rv) && rv.1 <= nets[j].1)
        }),
    decreases nets.len(),
{
    if nets.len() > 0 {
        let better = match acc {
            None => crate::addr::spec_same_subnet(dest, nets[0].0),
            Some(best) => crate::addr::spec_same_subnet(dest, nets[0].0) && nets[0].1 < best.1,
        };
        let acc2 = if better {
            Some((gw, nets[0].1))
        } else {
            acc
        };
        lemma_pick_net_props(gw, nets.drop_first(), dest, acc2);
        let r = crate::host::spec_pick_net(gw, nets, dest, acc);
        assert(r == crate::host::spec_pick_net(gw, nets.drop_first(), dest, acc2));
        assert forall|j: int|
            0 <= j < nets.len() && crate::addr::spec_same_subnet(dest, #[trigger] nets[j].0)
                implies r matches Some(rv) && rv.1 <= nets[j].1 by {
            if j > 0 {
                assert(nets.drop_first()[j - 1] == nets[j]);
            }
        }
        if r is Some {
            let rv = r->0;
            if acc2 == Some(rv) {
                if better {
                    assert(crate::addr::spec_same_subnet(dest, nets[0].0) && nets[0].1 == rv.1);
                }
            } else {
                assert(rv.0 == gw);
                let j = choose|j: int|
                    0 <= j < nets.drop_first().len() && crate::addr::spec_same_subnet(
                        dest,
                        #[trigger] nets.drop_first()[j].0,
                    ) && nets.drop_first()[j].1 == rv.1;
                assert(nets[j + 1] == nets.drop_first()[j]);
            }
        }
    }
}

proof fn lemma_select_acc_props(
    rt: Seq<(Seq<char>, Seq<(Seq<char>, usize)>)>,
    dest: Seq<char>,
    acc: Option<(Seq<char>, usize)>,
)
    ensures
        ({
            let r = crate::host::spec_select_acc(rt, dest, acc);
            &&& (acc matches Some(av) ==> r matches Some(rv) && rv.1 <= av.1)
            &&& (r matches Some(rv) ==> (acc == Some(rv)) || spec_gateway_claims(
                rt,
                dest,
                rv.0,
                rv.1,
            ))
            &&& forall|g: Seq<char>, m: usize|
                #[trigger] spec_gateway_claims(rt, dest, g, m) ==> (r matches Some(rv) && rv.1
                    <= m)
        }),
    decreases rt.len(),
{
    if rt.len() > 0 {
        let acc2 = crate::host::spec_pick_net(rt[0].0, rt[0].1, dest, acc);
        lemma_pick_net_props(rt[0].0, rt[0].1, dest, acc);
        lemma_select_acc_props(rt.drop_first(), dest, acc2);
        let r = crate::host::spec_select_acc(rt, dest, acc);
        assert(r == crate::host::spec_select_acc(rt.drop_first(), dest, acc2));
        assert forall|g: Seq<char>, m: usize| #[trigger] spec_gateway_claims(rt, dest, g, m)
            implies r matches Some(rv) && rv.1 <= m by {
            let (i, j) = choose|i: int, j: int|
                0 <= i < rt.len() && 0 <= j < rt[i].1.len() && rt[i].0 == g
                    && crate::addr::spec_same_subnet(dest, #[trigger] rt[i].1[j].0)
                    && rt[i].1[j].1 == m;
            if i == 0 {
                assert(acc2 matches Some(a2) && a2.1 <= m);
            } else {
                assert(rt.drop_first()[i - 1] == rt[i]);
                assert(spec_gateway_claims(rt.drop_first(), dest, g, m));
            }
        }
        if r is Some {
            let rv = r->0;
            if acc2 == Some(rv) {
                if acc != Some(rv) {
                    let j = choose|j: int|
                        0 <= j < rt[0].1.len() && crate::addr::spec_same_subnet(
                            dest,
                            #[trigger] rt[0].1[j].0,
                        ) && rt[0].1[j].1 == rv.1;
                    assert(spec_gateway_claims(rt, dest, rv.0, rv.1));
                }
            } else {
                if !(acc == Some(rv)) {
                    assert(spec_gateway_claims(rt.drop_first(), dest, rv.0, rv.1));
                    let (i, j) = choose|i: int, j: int|
                        0 <= i < rt.drop_first().len() && 0 <= j < rt.drop_first()[i].1.len()
                            && rt.drop_first()[i].0 == rv.0 && crate::addr::spec_same_subnet(
                            dest,
                            #[trigger] rt.drop_first()[i].1[j].0,
                        ) && rt.drop_first()[i].1[j].1 == rv.1;
                    assert(rt[i + 1] == rt.drop_first()[i]);
                    assert(spec_gateway_claims(rt, dest, rv.0, rv.1));
                }
            }
        }
    }
}

/// The routing tie-break: the chosen gateway is one that claims a network on
/// the destination's subnet, and no gateway claims such a network with a
/// lower metric — so given candidates with metrics 0 and 1, the metric-0
/// gateway wins. If no gateway claims a matching network, none is chosen.
pub proof fn law_gateway_tiebreak(rt: Seq<(Seq<char>, Seq<(Seq<char>, usize)>)>, dest: Seq<char>)
    ensures
        ({
            match crate::host::spec_select_gateway(rt, dest) {
                Some(rv) => spec_gateway_claims(rt, dest, rv.0, rv.1) && (forall|
                    g: Seq<char>,
                    m: usize,
                | #[trigger] spec_gateway_claims(rt, dest, g, m) ==> rv.1 <= m),
                None => forall|g: Seq<char>, m: usize|
                    !(#[trigger] spec_gateway_claims(rt, dest, g, m)),
            }
        }),
{
    lemma_select_acc_props(rt, dest, None);
    match crate::host::spec_select_gateway(rt, dest) {
        Some(rv) => {},
        None => {
            assert forall|g: Seq<char>, m: usize|
                !(#[trigger] spec_gateway_claims(rt, dest, g, m)) by {
                if spec_gateway_claims(rt, dest, g, m) {
                    assert(crate::host::spec_select_acc(rt, dest, None) is Some);
                }
            }
        },
    }
}

} // verus!
