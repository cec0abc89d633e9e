use vstd::prelude::*;
use vstd::string::StringExecFns;
use crate::addr::{same_subnet, spec_same_subnet};
use crate::packet::{clone_packets, Packet, PacketV};
use crate::tables::{clone_port_pairs, clone_str_pairs, lemma_upsert_absent, lemma_upsert_found,
    spec_upsert};

verus! {

/// Mathematical model of a host.
pub ghost struct HostV {
    pub arp_table: Seq<(Seq<char>, Seq<char>)>,
    pub routing_table: Seq<(Seq<char>, Seq<(Seq<char>, usize)>)>,
    pub incoming_packets: Seq<PacketV>,
    pub outgoing_packets: Seq<PacketV>,
    pub ip_address: Seq<char>,
    pub mac_address: Seq<char>,
    pub port: usize,
    pub switch: usize,
}

/// An L3 endpoint. `arp_table` caches IP-to-MAC resolutions. `routing_table`
/// maps a gateway router's IP to the networks it claims to reach, each with a
/// hop metric. `port` is the index this host occupies on its attached switch;
/// `switch` is that switch's index in the network registry. The two packet
/// logs are append-only audit trails used only for diagnostics.
pub struct Host {
    pub arp_table: Vec<(String, String)>,
    pub routing_table: Vec<(String, Vec<(String, usize)>)>,
    pub incoming_packets: Vec<Packet>,
    pub outgoing_packets: Vec<Packet>,
    pub ip_address: String,
    pub mac_address: String,
    pub port: usize,
    pub switch: usize,
}

impl View for Host {
    type V = HostV;

    open spec fn view(&self) -> HostV {
        HostV {
            arp_table: self.arp_table.deep_view(),
            routing_table: self.routing_table.deep_view(),
            incoming_packets: self.incoming_packets.deep_view(),
            outgoing_packets: self.outgoing_packets.deep_view(),
            ip_address: self.ip_address@,
            mac_address: self.mac_address@,
            port: self.port,
            switch: self.switch,
        }
    }
}

/// An element-by-element copy of a host routing table.
fn clone_routing(t: &Vec<(String, Vec<(String, usize)>)>) -> (res: Vec<
    (String, Vec<(String, usize)>),
>)
    ensures
        res.deep_view() == t.deep_view(),
{
    let mut res: Vec<(String, Vec<(String, usize)>)> = Vec::new();
    let mut i: usize = 0;
    while i < t.len()
        invariant
            0 <= i <= t.len(),
            res@.len() == i,
            forall|j: int| 0 <= j < i ==> res.deep_view()[j] == t.deep_view()[j],
        decreases t.len() - i,
    {
        let pair = &t[i];
        let entry = (pair.0.clone(), clone_port_pairs(&pair.1));
        let ghost pre = res@;
        let ghost pre_dv = res.deep_view();
        res.push(entry);
        assert forall|j: int| 0 <= j < i + 1 implies res.deep_view()[j] == t.deep_view()[j] by {
            if j < i {
                assert(res@[j] == pre[j]);
                assert(res.deep_view()[j] == res@[j].deep_view());
                assert(pre_dv[j] == pre[j].deep_view());
            } else {
                assert(res@[j] == entry);
                assert(res.deep_view()[j] == entry.deep_view());
                assert(t.deep_view()[j] == t@[j].deep_view());
            }
        }
        i = i + 1;
    }
    assert(res.deep_view() =~= t.deep_view());
    res
}

impl Clone for Host {
    fn clone(&self) -> (res: Self)
        ensures
            res@ == self@,
    {
        Host {
            arp_table: clone_str_pairs(&self.arp_table),
            routing_table: clone_routing(&self.routing_table),
            incoming_packets: clone_packets(&self.incoming_packets),
            outgoing_packets: clone_packets(&self.outgoing_packets),
            ip_address: self.ip_address.clone(),
            mac_address: self.mac_address.clone(),
            port: self.port,
            switch: self.switch,
        }
    }
}

/// What a host does with an ARP request: if the request asks for this host's
/// IP, the requester's mapping is cached and a reply carrying this host's MAC
/// goes back; otherwise nothing.
pub open spec fn spec_host_recv_arp(h: HostV, p: PacketV) -> (HostV, Option<PacketV>) {
    if p.dest_ip == h.ip_address {
        (
            HostV { arp_table: spec_upsert(h.arp_table, p.src_ip, p.src_mac), ..h },
            Some(
                PacketV {
                    src_mac: h.mac_address,
                    dest_mac: p.src_mac,
                    src_ip: h.ip_address,
                    dest_ip: p.src_ip,
                    data: Seq::empty(),
                    is_arp: true,
                },
            ),
        )
    } else {
        (h, None)
    }
}

/// One step of the gateway scan: fold the next claimed network of gateway
/// `gw` into the best candidate so far. A candidate is replaced only by a
/// matching network with a strictly lower metric, so the earliest entry wins
/// ties.
pub open spec fn spec_pick_net(
    gw: Seq<char>,
    nets: Seq<(Seq<char>, usize)>,
    dest: Seq<char>,
    acc: Option<(Seq<char>, usize)>,
) -> Option<(Seq<char>, usize)>
    decreases nets.len(),
{
    if nets.len() == 0 {
        acc
    } else {
        let better = match acc {
            None => spec_same_subnet(dest, nets[0].0),
            Some(best) => spec_same_subnet(dest, nets[0].0) && nets[0].1 < best.1,
        };
        let acc2 = if better {
            Some((gw, nets[0].1))
        } else {
            acc
        };
        spec_pick_net(gw, nets.drop_first(), dest, acc2)
    }
}

/// Fold of `spec_pick_net` over the whole routing table in insertion order.
pub open spec fn spec_select_acc(
    rt: Seq<(Seq<char>, Seq<(Seq<char>, usize)>)>,
    dest: Seq<char>,
    acc: Option<(Seq<char>, usize)>,
) -> Option<(Seq<char>, usize)>
    decreases rt.len(),
{
    if rt.len() == 0 {
        acc
    } else {
        spec_select_acc(rt.drop_first(), dest, spec_pick_net(rt[0].0, rt[0].1, dest, acc))
    }
}

/// The gateway chosen for a destination: among the gateways claiming a
/// network on the destination's subnet, the one with the lowest metric,
/// earliest entry winning ties. The result carries the gateway IP and the
/// winning metric.
pub open spec fn spec_select_gateway(
    rt: Seq<(Seq<char>, Seq<(Seq<char>, usize)>)>,
    dest: Seq<char>,
) -> Option<(Seq<char>, usize)> {
    spec_select_acc(rt, dest, None)
}

/// Where a packet for `dest` must be sent first: straight to `dest` on the
/// local subnet, otherwise to the best gateway, if any.
pub open spec fn spec_next_hop(h: HostV, dest: Seq<char>) -> Option<Seq<char>> {
    if spec_same_subnet(h.ip_address, dest) {
        Some(dest)
    } else {
        match spec_select_gateway(h.routing_table, dest) {
            Some(g) => Some(g.0),
            None => None,
        }
    }
}

impl Host {
    /// A host with the given addressing, attached to the switch with registry
    /// index `switch` on port `port`, with empty tables and logs.
    pub fn new(ip_address: String, mac_address: String, port: usize, switch: usize) -> (res: Self)
        ensures
            res@ == (HostV {
                arp_table: Seq::empty(),
                routing_table: Seq::empty(),
                incoming_packets: Seq::empty(),
                outgoing_packets: Seq::empty(),
                ip_address: ip_address@,
                mac_address: mac_address@,
                port: port,
                switch: switch,
            }),
    {
        let res = Host {
            arp_table: Vec::new(),
            routing_table: Vec::new(),
            incoming_packets: Vec::new(),
            outgoing_packets: Vec::new(),
            ip_address,
            mac_address,
            port,
            switch,
        };
        assert(res@.arp_table =~= Seq::<(Seq<char>, Seq<char>)>::empty());
        assert(res@.routing_table =~= Seq::<(Seq<char>, Seq<(Seq<char>, usize)>)>::empty());
        assert(res@.incoming_packets =~= Seq::<PacketV>::empty());
        assert(res@.outgoing_packets =~= Seq::<PacketV>::empty());
        res
    }

    /// Records the port this host occupies on its switch.
    pub fn assign_port(&mut self, port: usize)
        ensures
            final(self)@ == (HostV { port: port, ..old(self)@ }),
    {
        self.port = port;
    }

    /// Stores the reachability rows for the named gateway, replacing any
    /// previous rows under the same gateway IP.
    pub fn populate_routing_table(&mut self, router_ip: String, vector: Vec<(String, usize)>)
        ensures
            final(self)@ == (HostV {
                routing_table: spec_upsert(
                    old(self)@.routing_table,
                    router_ip@,
                    vector.deep_view(),
                ),
                ..old(self)@
            }),
    {
        let n = self.routing_table.len();
        let mut i: usize = 0;
        while i < n
            invariant
                n == self.routing_table.len(),
                *self == *old(self),
                0 <= i <= n,
                forall|j: int| 0 <= j < i ==> self.routing_table.deep_view()[j].0 != router_ip@,
            decreases n - i,
        {
            if self.routing_table[i].0 == router_ip {
                proof {
                    lemma_upsert_found(
                        self.routing_table.deep_view(),
                        router_ip@,
                        vector.deep_view(),
                        i as int,
                    );
                }
                let ghost before = self.routing_table.deep_view();
                self.routing_table[i] = (router_ip, vector);
                assert(self.routing_table.deep_view() =~= before.update(
                    i as int,
                    (router_ip@, vector.deep_view()),
                ));
                return ;
            }
            i = i + 1;
        }
        proof {
            lemma_upsert_absent(self.routing_table.deep_view(), router_ip@, vector.deep_view());
        }
        let ghost before = self.routing_table.deep_view();
        self.routing_table.push((router_ip, vector));
        assert(self.routing_table.deep_view() =~= before.push((router_ip@, vector.deep_view())));
    }

    /// Answers an ARP request addressed to this host's IP with this host's
    /// MAC, caching the requester's mapping; any other request gets no reply.
    pub fn receive_arp_request(&mut self, packet: &Packet) -> (r: Option<Packet>)
        ensures
            final(self)@ == spec_host_recv_arp(old(self)@, packet@).0,
            r.deep_view() == spec_host_recv_arp(old(self)@, packet@).1,
    {
        if packet.dest_ip == self.ip_address {
            crate::tables::upsert_str(&mut self.arp_table, &packet.src_ip, packet.src_mac.clone());
            let reply = Packet::new(
                self.mac_address.as_str(),
                packet.src_mac.as_str(),
                self.ip_address.as_str(),
                packet.src_ip.as_str(),
                Vec::new(),
                true,
            );
            Some(reply)
        } else {
            None
        }
    }

    /// The best gateway for `dest_ip`, as `spec_select_gateway` chooses it.
    pub fn select_gateway(&self, dest_ip: &String) -> (r: Option<(String, usize)>)
        ensures
            r.deep_view() == spec_select_gateway(self@.routing_table, dest_ip@),
    {
        let ghost rtd = self@.routing_table;
        let mut acc: Option<(String, usize)> = None;
        let n = self.routing_table.len();
        assert(rtd.skip(0) =~= rtd);
        let mut i: usize = 0;
        while i < n
            invariant
                n == self.routing_table.len(),
                rtd == self@.routing_table,
                0 <= i <= n,
                spec_select_acc(rtd.skip(i as int), dest_ip@, acc.deep_view())
                    == spec_select_gateway(rtd, dest_ip@),
            decreases n - i,
        {
            let row = &self.routing_table[i];
            let ghost netsd = rtd[i as int].1;
            let ghost acc0 = acc.deep_view();
            proof {
                assert(self.routing_table@[i as int] == *row);
                assert(rtd[i as int] == self.routing_table@[i as int].deep_view());
                assert(rtd[i as int].0 == row.0@ && rtd[i as int].1 == row.1.deep_view());
                assert(netsd.skip(0) =~= netsd);
            }
            let m = row.1.len();
            let mut j: usize = 0;
            while j < m
                invariant
                    m == row.1.len(),
                    netsd == row.1.deep_view(),
                    rtd[i as int].0 == row.0@,
                    0 <= j <= m,
                    spec_pick_net(row.0@, netsd.skip(j as int), dest_ip@, acc.deep_view())
                        == spec_pick_net(row.0@, netsd, dest_ip@, acc0),
                decreases m - j,
            {
                let net = &row.1[j];
                assert(netsd.skip(j as int)[0] == netsd[j as int]);
                assert(netsd[j as int] == (net.0@, net.1));
                let matches_net = same_subnet(dest_ip.as_str(), net.0.as_str());
                let better = match &acc {
                    None => matches_net,
                    Some(best) => matches_net && net.1 < best.1,
                };
                let ghost acc_before = acc.deep_view();
                if better {
                    acc = Some((row.0.clone(), net.1));
                }
                proof {
                    assert(netsd.skip(j as int).drop_first() =~= netsd.skip(j as int + 1));
                    assert(spec_pick_net(row.0@, netsd.skip(j as int), dest_ip@, acc_before)
                        == spec_pick_net(row.0@, netsd.skip(j as int + 1), dest_ip@,
                        acc.deep_view()));
                }
                j = j + 1;
            }
            proof {
                assert(netsd.skip(m as int) =~= Seq::<(Seq<char>, usize)>::empty());
                assert(spec_pick_net(row.0@, netsd.skip(m as int), dest_ip@, acc.deep_view())
                    == acc.deep_view());
                assert(rtd.skip(i as int)[0] == rtd[i as int]);
                assert(rtd.skip(i as int).drop_first() =~= rtd.skip(i as int + 1));
                assert(spec_select_acc(rtd.skip(i as int), dest_ip@, acc0) == spec_select_acc(
                    rtd.skip(i as int + 1),
                    dest_ip@,
                    spec_pick_net(rtd[i as int].0, rtd[i as int].1, dest_ip@, acc0),
                ));
            }
            i = i + 1;
        }
        proof {
            assert(rtd.skip(n as int) =~= Seq::<(Seq<char>, Seq<(Seq<char>, usize)>)>::empty());
        }
        acc
    }

    /// Where a packet for `dest_ip` is sent first: the destination itself on
    /// the local subnet, otherwise the chosen gateway.
    pub fn next_hop(&self, dest_ip: &String) -> (r: Option<String>)
        ensures
            r.deep_view() == spec_next_hop(self@, dest_ip@),
    {
        if same_subnet(self.ip_address.as_str(), dest_ip.as_str()) {
            Some(dest_ip.clone())
        } else {
            match self.select_gateway(dest_ip) {
                Some(g) => Some(g.0),
                None => None,
            }
        }
    }
}

/// The host's diagnostic description: its IP and MAC, then its ARP cache,
/// one `ip -> mac` line per entry.
pub open spec fn spec_host_info(h: HostV) -> Seq<char> {
    "HOST: "@ + h.ip_address + "\n"@ + "MAC: "@ + h.mac_address + "\n"@
        + crate::tables::spec_table_lines(h.arp_table)
}

impl Host {
    /// The host's own IP address.
    pub fn get_ip_address(&self) -> (r: String)
        ensures
            r@ == self@.ip_address,
    {
        self.ip_address.clone()
    }

    /// A diagnostic description of the host for display.
    pub fn get_host_info(&self) -> (r: String)
        ensures
            r@ == spec_host_info(self@),
    {
        let mut out = String::new();
        out.append("HOST: ");
        out.append(self.ip_address.as_str());
        out.append("\n");
        out.append("MAC: ");
        out.append(self.mac_address.as_str());
        out.append("\n");
        let lines = crate::tables::table_lines(&self.arp_table);
        out.append(lines.as_str());
        assert(out@ =~= spec_host_info(self@));
        out
    }
}

} // verus!
