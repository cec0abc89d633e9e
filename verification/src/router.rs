use vstd::prelude::*;
use vstd::string::StringExecFns;
use crate::addr::spec_same_subnet;
use crate::packet::{clone_packets, Packet, PacketV};
use crate::tables::{clone_str_pairs, spec_upsert};

verus! {

/// Mathematical model of one routing-table row.
pub ghost struct RouteEntryV {
    pub network: Seq<char>,
    pub switch: usize,
    pub port: usize,
    pub next_hop_ip: Seq<char>,
    pub local_mac: Seq<char>,
}

/// One row of a router's table: packets for `network` leave through port
/// `port` of the switch with registry index `switch`, addressed to
/// `next_hop_ip` (the empty string meaning the destination itself is directly
/// reachable), with `local_mac` as the interface's own MAC on that segment.
pub struct RouteEntry {
    pub network: String,
    pub switch: usize,
    pub port: usize,
    pub next_hop_ip: String,
    pub local_mac: String,
}

impl View for RouteEntry {
    type V = RouteEntryV;

    open spec fn view(&self) -> RouteEntryV {
        RouteEntryV {
            network: self.network@,
            switch: self.switch,
            port: self.port,
            next_hop_ip: self.next_hop_ip@,
            local_mac: self.local_mac@,
        }
    }
}

impl DeepView for RouteEntry {
    type V = RouteEntryV;

    open spec fn deep_view(&self) -> RouteEntryV {
        self.view()
    }
}

impl Clone for RouteEntry {
    fn clone(&self) -> (res: Self)
        ensures
            res@ == self@,
    {
        RouteEntry {
            network: self.network.clone(),
            switch: self.switch,
            port: self.port,
            next_hop_ip: self.next_hop_ip.clone(),
            local_mac: self.local_mac.clone(),
        }
    }
}

/// Mathematical model of a router.
pub ghost struct RouterV {
    pub arp_table: Seq<(Seq<char>, Seq<char>)>,
    pub routing_table: Seq<RouteEntryV>,
    pub incoming_packets: Seq<PacketV>,
    pub outgoing_packets: Seq<PacketV>,
    pub ip_address: Seq<char>,
}

/// An L3 forwarder. `arp_table` caches IP-to-MAC resolutions made on ARP
/// exchanges. `routing_table` holds one row per reachable network, in
/// insertion order; the first prefix match wins. The packet logs are
/// append-only diagnostics.
pub struct Router {
    pub arp_table: Vec<(String, String)>,
    pub routing_table: Vec<RouteEntry>,
    pub incoming_packets: Vec<Packet>,
    pub outgoing_packets: Vec<Packet>,
    pub ip_address: String,
}

impl View for Router {
    type V = RouterV;

    open spec fn view(&self) -> RouterV {
        RouterV {
            arp_table: self.arp_table.deep_view(),
            routing_table: self.routing_table.deep_view(),
            incoming_packets: self.incoming_packets.deep_view(),
            outgoing_packets: self.outgoing_packets.deep_view(),
            ip_address: self.ip_address@,
        }
    }
}

/// An element-by-element copy of a router routing table.
fn clone_route_entries(t: &Vec<RouteEntry>) -> (res: Vec<RouteEntry>)
    ensures
        res.deep_view() == t.deep_view(),
{
    let mut res: Vec<RouteEntry> = Vec::new();
    let mut i: usize = 0;
    while i < t.len()
        invariant
            0 <= i <= t.len(),
            res@.len() == i,
            forall|j: int| 0 <= j < i ==> res.deep_view()[j] == t.deep_view()[j],
        decreases t.len() - i,
    {
        let entry = t[i].clone();
        let ghost pre = res@;
        let ghost pre_dv = res.deep_view();
        res.push(entry);
        assert forall|j: int| 0 <= j < i + 1 implies res.deep_view()[j] == t.deep_view()[j] by {
            if j < i {
                assert(res@[j] == pre[j]);
                assert(res.deep_view()[j] == res@[j].deep_view());
                assert(pre_dv[j] == pre[j].deep_view());
            } else {
                assert(res@[j] == entry);
                assert(res.deep_view()[j] == entry.deep_view());
                assert(t.deep_view()[j] == t@[j].deep_view());
            }
        }
        i = i + 1;
    }
    assert(res.deep_view() =~= t.deep_view());
    res
}

impl Clone for Router {
    fn clone(&self) -> (res: Self)
        ensures
            res@ == self@,
    {
        Router {
            arp_table: clone_str_pairs(&self.arp_table),
            routing_table: clone_route_entries(&self.routing_table),
            incoming_packets: clone_packets(&self.incoming_packets),
            outgoing_packets: clone_packets(&self.outgoing_packets),
            ip_address: self.ip_address.clone(),
        }
    }
}

/// The first routing-table row whose network lies on the same subnet as the
/// given address; table order decides among several matches.
pub open spec fn spec_find_route(rt: Seq<RouteEntryV>, addr: Seq<char>) -> Option<RouteEntryV>
    decreases rt.len(),
{
    if rt.len() == 0 {
        None
    } else if spec_same_subnet(addr, rt[0].network) {
        Some(rt[0])
    } else {
        spec_find_route(rt.drop_first(), addr)
    }
}

pub proof fn lemma_find_route_found(rt: Seq<RouteEntryV>, addr: Seq<char>, j: int)
    requires
        0 <= j < rt.len(),
        spec_same_subnet(addr, rt[j].network),
        forall|i: int| 0 <= i < j ==> !spec_same_subnet(addr, rt[i].network),
    ensures
        spec_find_route(rt, addr) == Some(rt[j]),
    decreases j,
{
    if j > 0 {
        lemma_find_route_found(rt.drop_first(), addr, j - 1);
    }
}

pub proof fn lemma_find_route_absent(rt: Seq<RouteEntryV>, addr: Seq<char>)
    requires
        forall|i: int| 0 <= i < rt.len() ==> !spec_same_subnet(addr, rt[i].network),
    ensures
        spec_find_route(rt, addr) is None,
    decreases rt.len(),
{
    if rt.len() > 0 {
        lemma_find_route_absent(rt.drop_first(), addr);
    }
}

/// Whether a MAC address is one of the router's own interface MACs, i.e.
/// appears as the local MAC of some routing-table row.
pub open spec fn spec_has_interface(rt: Seq<RouteEntryV>, mac: Seq<char>) -> bool {
    exists|i: int| 0 <= i < rt.len() && rt[i].local_mac == mac
}

/// Keyed insert-or-replace for routing-table rows: the first row for the same
/// network is overwritten in place, otherwise the row is appended.
pub open spec fn spec_upsert_route(rt: Seq<RouteEntryV>, e: RouteEntryV) -> Seq<RouteEntryV>
    decreases rt.len(),
{
    if rt.len() == 0 {
        seq![e]
    } else if rt[0].network == e.network {
        rt.update(0, e)
    } else {
        seq![rt[0]] + spec_upsert_route(rt.drop_first(), e)
    }
}

pub proof fn lemma_upsert_route_found(rt: Seq<RouteEntryV>, e: RouteEntryV, j: int)
    requires
        0 <= j < rt.len(),
        rt[j].network == e.network,
        forall|i: int| 0 <= i < j ==> rt[i].network != e.network,
    ensures
        spec_upsert_route(rt, e) == rt.update(j, e),
    decreases j,
{
    if j == 0 {
    } else {
        lemma_upsert_route_found(rt.drop_first(), e, j - 1);
        assert(seq![rt[0]] + rt.drop_first().update(j - 1, e) =~= rt.update(j, e));
    }
}

pub proof fn lemma_upsert_route_absent(rt: Seq<RouteEntryV>, e: RouteEntryV)
    requires
        forall|i: int| 0 <= i < rt.len() ==> rt[i].network != e.network,
    ensures
        spec_upsert_route(rt, e) == rt.push(e),
    decreases rt.len(),
{
    if rt.len() == 0 {
        assert(seq![e] =~= rt.push(e));
    } else {
        lemma_upsert_route_absent(rt.drop_first(), e);
        assert(seq![rt[0]] + rt.drop_first().push(e) =~= rt.push(e));
    }
}

/// What a router does with an ARP request: if the request asks for the
/// router's own IP and some interface serves the requester's subnet, the
/// requester's mapping is cached and a reply carrying that interface's MAC
/// goes back; otherwise nothing.
pub open spec fn spec_router_recv_arp(r: RouterV, p: PacketV) -> (RouterV, Option<PacketV>) {
    if p.dest_ip != r.ip_address {
        (r, None)
    } else {
        match spec_find_route(r.routing_table, p.src_ip) {
            Some(e) => (
                RouterV { arp_table: spec_upsert(r.arp_table, p.src_ip, p.src_mac), ..r },
                Some(
                    PacketV {
                        src_mac: e.local_mac,
                        dest_mac: p.src_mac,
                        src_ip: p.dest_ip,
                        dest_ip: p.src_ip,
                        data: Seq::empty(),
                        is_arp: true,
                    },
                ),
            ),
            None => (r, None),
        }
    }
}

impl Router {
    /// A router with the given IP and empty tables and logs.
    pub fn new(ip_address: String) -> (res: Self)
        ensures
            res@ == (RouterV {
                arp_table: Seq::empty(),
                routing_table: Seq::empty(),
                incoming_packets: Seq::empty(),
                outgoing_packets: Seq::empty(),
                ip_address: ip_address@,
            }),
    {
        let res = Router {
            arp_table: Vec::new(),
            routing_table: Vec::new(),
            incoming_packets: Vec::new(),
            outgoing_packets: Vec::new(),
            ip_address,
        };
        assert(res@.arp_table =~= Seq::<(Seq<char>, Seq<char>)>::empty());
        assert(res@.routing_table =~= Seq::<RouteEntryV>::empty());
        assert(res@.incoming_packets =~= Seq::<PacketV>::empty());
        assert(res@.outgoing_packets =~= Seq::<PacketV>::empty());
        res
    }

    /// Adds or replaces the row for `network`: packets for it leave through
    /// `port` of the switch with registry index `switch`, addressed to
    /// `router_ip` (empty meaning directly connected), from interface MAC
    /// `local_mac`.
    #[verifier::loop_isolation(false)]
    pub fn populate_routing_table(
        &mut self,
        network: String,
        switch: usize,
        port: usize,
        router_ip: String,
        local_mac: String,
    )
        ensures
            final(self)@ == (RouterV {
                routing_table: spec_upsert_route(
                    old(self)@.routing_table,
                    RouteEntryV {
                        network: network@,
                        switch: switch,
                        port: port,
                        next_hop_ip: router_ip@,
                        local_mac: local_mac@,
                    },
                ),
                ..old(self)@
            }),
    {
        let ghost ev = RouteEntryV {
            network: network@,
            switch: switch,
            port: port,
            next_hop_ip: router_ip@,
            local_mac: local_mac@,
        };
        let n = self.routing_table.len();
        let mut i: usize = 0;
        while i < n
            invariant
                n == self.routing_table.len(),
                *self == *old(self),
                0 <= i <= n,
                network@ == ev.network,
                router_ip@ == ev.next_hop_ip,
                local_mac@ == ev.local_mac,
                forall|j: int| 0 <= j < i ==> self.routing_table.deep_view()[j].network != ev.network,
            decreases n - i,
        {
            proof {
                assert(self.routing_table.deep_view()[i as int]
                    == self.routing_table@[i as int].deep_view());
            }
            if self.routing_table[i].network == network {
                proof {
                    lemma_upsert_route_found(self.routing_table.deep_view(), ev, i as int);
                }
                let ghost before = self.routing_table.deep_view();
                let entry = RouteEntry { network, switch, port, next_hop_ip: router_ip, local_mac };
                assert(entry@ == ev);
                self.routing_table[i] = entry;
                assert(self.routing_table.deep_view() =~= before.update(i as int, ev));
                return ;
            }
            i = i + 1;
        }
        proof {
            lemma_upsert_route_absent(self.routing_table.deep_view(), ev);
        }
        let ghost before = self.routing_table.deep_view();
        let entry = RouteEntry { network, switch, port, next_hop_ip: router_ip, local_mac };
        assert(entry@ == ev);
        self.routing_table.push(entry);
        assert(self.routing_table.deep_view() =~= before.push(ev));
    }

    /// The router's own IP address.
    pub fn get_ip_address(&self) -> (r: String)
        ensures
            r@ == self@.ip_address,
    {
        self.ip_address.clone()
    }

    /// The index of the first routing-table row serving the subnet of `addr`.
    pub fn find_route(&self, addr: &String) -> (r: Option<usize>)
        ensures
            match r {
                Some(i) => 0 <= i < self@.routing_table.len() && spec_find_route(
                    self@.routing_table,
                    addr@,
                ) == Some(self@.routing_table[i as int]),
                None => spec_find_route(self@.routing_table, addr@) is None,
            },
    {
        let n = self.routing_table.len();
        let mut i: usize = 0;
        while i < n
            invariant
                n == self.routing_table.len(),
                0 <= i <= n,
                forall|j: int|
                    0 <= j < i ==> !spec_same_subnet(addr@, self@.routing_table[j].network),
            decreases n - i,
        {
            let entry = &self.routing_table[i];
            proof {
                assert(self@.routing_table[i as int] == self.routing_table@[i as int].deep_view());
            }
            if crate::addr::same_subnet(addr.as_str(), entry.network.as_str()) {
                proof {
                    lemma_find_route_found(self@.routing_table, addr@, i as int);
                }
                return Some(i);
            }
            i = i + 1;
        }
        proof {
            lemma_find_route_absent(self@.routing_table, addr@);
        }
        None
    }

    /// Whether the frame MAC addresses this router at L2, i.e. matches one of
    /// its interface MACs.
    pub fn has_interface(&self, mac: &String) -> (r: bool)
        ensures
            r == spec_has_interface(self@.routing_table, mac@),
    {
        let n = self.routing_table.len();
        let mut i: usize = 0;
        while i < n
            invariant
                n == self.routing_table.len(),
                0 <= i <= n,
                forall|j: int| 0 <= j < i ==> self@.routing_table[j].local_mac != mac@,
            decreases n - i,
        {
            let entry = &self.routing_table[i];
            proof {
                assert(self@.routing_table[i as int] == self.routing_table@[i as int].deep_view());
            }
            if entry.local_mac == *mac {
                return true;
            }
            i = i + 1;
        }
        false
    }

    /// Answers an ARP request addressed to the router's IP, replying from the
    /// interface that serves the requester's subnet and caching the
    /// requester's mapping; any other request gets no reply.
    pub fn receive_arp_request(&mut self, packet: &Packet) -> (r: Option<Packet>)
        ensures
            final(self)@ == spec_router_recv_arp(old(self)@, packet@).0,
            r.deep_view() == spec_router_recv_arp(old(self)@, packet@).1,
    {
        if packet.dest_ip != self.ip_address {
            return None;
        }
        match self.find_route(&packet.src_ip) {
            Some(i) => {
                let local_mac = self.routing_table[i].local_mac.clone();
                proof {
                    assert(self@.routing_table[i as int]
                        == self.routing_table@[i as int].deep_view());
                }
                crate::tables::upsert_str(
                    &mut self.arp_table,
                    &packet.src_ip,
                    packet.src_mac.clone(),
                );
                let reply = Packet::new(
                    local_mac.as_str(),
                    packet.src_mac.as_str(),
                    packet.dest_ip.as_str(),
                    packet.src_ip.as_str(),
                    Vec::new(),
                    true,
                );
                Some(reply)
            },
            None => None,
        }
    }
}

/// The router's diagnostic description: its IP, then its ARP cache, one
/// `ip -> mac` line per entry.
pub open spec fn spec_router_info(r: RouterV) -> Seq<char> {
    "ROUTER: "@ + r.ip_address + "\n"@ + crate::tables::spec_table_lines(r.arp_table)
}

impl Router {
    /// A diagnostic description of the router for display.
    pub fn get_router_info(&self) -> (r: String)
        ensures
            r@ == spec_router_info(self@),
    {
        let mut out = String::new();
        out.append("ROUTER: ");
        out.append(self.ip_address.as_str());
        out.append("\n");
        let lines = crate::tables::table_lines(&self.arp_table);
        out.append(lines.as_str());
        assert(out@ =~= spec_router_info(self@));
        out
    }
}

} // verus!
