use vstd::prelude::*;

verus! {

/// Mathematical model of a packet: the two L2 (MAC) addresses, the two L3
/// (IP) addresses, the payload bytes, and the ARP flag.
pub ghost struct PacketV {
    pub src_mac: Seq<char>,
    pub dest_mac: Seq<char>,
    pub src_ip: Seq<char>,
    pub dest_ip: Seq<char>,
    pub data: Seq<u8>,
    pub is_arp: bool,
}

/// A simulated packet. It carries L2/L3 addressing as plain strings, a byte
/// payload, and a flag marking ARP traffic. ARP packets carry an empty
/// payload; data packets carry their payload unchanged end to end.
pub struct Packet {
    pub src_mac: String,
    pub dest_mac: String,
    pub src_ip: String,
    pub dest_ip: String,
    pub data: Vec<u8>,
    pub is_arp: bool,
}

impl View for Packet {
    type V = PacketV;

    open spec fn view(&self) -> PacketV {
        PacketV {
            src_mac: self.src_mac@,
            dest_mac: self.dest_mac@,
            src_ip: self.src_ip@,
            dest_ip: self.dest_ip@,
            data: self.data@,
            is_arp: self.is_arp,
        }
    }
}

impl DeepView for Packet {
    type V = PacketV;

    open spec fn deep_view(&self) -> PacketV {
        self.view()
    }
}

impl Clone for Packet {
    fn clone(&self) -> (res: Self)
        ensures
            res@ == self@,
    {
        Packet {
            src_mac: self.src_mac.clone(),
            dest_mac: self.dest_mac.clone(),
            src_ip: self.src_ip.clone(),
            dest_ip: self.dest_ip.clone(),
            data: vstd::slice::slice_to_vec(self.data.as_slice()),
            is_arp: self.is_arp,
        }
    }
}

impl Packet {
    /// Builds a packet from its parts; no validation beyond field assignment.
    pub fn new(
        src_mac: &str,
        dest_mac: &str,
        src_ip: &str,
        dest_ip: &str,
        data: Vec<u8>,
        is_arp: bool,
    ) -> (res: Self)
        ensures
            res@ == (PacketV {
                src_mac: src_mac@,
                dest_mac: dest_mac@,
                src_ip: src_ip@,
                dest_ip: dest_ip@,
                data: data@,
                is_arp: is_arp,
            }),
    {
        Packet {
            src_mac: src_mac.to_owned(),
            dest_mac: dest_mac.to_owned(),
            src_ip: src_ip.to_owned(),
            dest_ip: dest_ip.to_owned(),
            data,
            is_arp,
        }
    }

    /// The packet with its two MAC fields replaced: used when a router
    /// rewrites L2 addressing for the next hop. The L3 fields, the payload
    /// and the ARP flag are preserved.
    #[allow(non_snake_case)]
    pub fn rebuild_L3(&self, src_mac: String, dest_mac: String) -> (res: Self)
        ensures
            res@ == spec_rebuild(self@, src_mac@, dest_mac@),
    {
        Packet {
            src_mac,
            dest_mac,
            src_ip: self.src_ip.clone(),
            dest_ip: self.dest_ip.clone(),
            data: vstd::slice::slice_to_vec(self.data.as_slice()),
            is_arp: self.is_arp,
        }
    }
}

/// What `rebuild_L3` returns: the same packet under new MAC addressing.
pub open spec fn spec_rebuild(p: PacketV, src_mac: Seq<char>, dest_mac: Seq<char>) -> PacketV {
    PacketV { src_mac, dest_mac, ..p }
}

/// Appends a packet to an audit log.
pub fn log_packet(log: &mut Vec<Packet>, p: Packet)
    ensures
        final(log).deep_view() == old(log).deep_view().push(p@),
{
    let ghost pv = p@;
    let ghost pre = log.deep_view();
    log.push(p);
    assert(log.deep_view() =~= pre.push(pv));
}

/// An element-by-element copy of a packet log.
pub fn clone_packets(t: &Vec<Packet>) -> (res: Vec<Packet>)
    ensures
        res.deep_view() == t.deep_view(),
{
    let mut res: Vec<Packet> = Vec::new();
    let mut i: usize = 0;
    while i < t.len()
        invariant
            0 <= i <= t.len(),
            res@.len() == i,
            forall|j: int| 0 <= j < i ==> res.deep_view()[j] == t.deep_view()[j],
        decreases t.len() - i,
    {
        let entry = t[i].clone();
        let ghost pre = res@;
        let ghost pre_dv = res.deep_view();
        res.push(entry);
        assert forall|j: int| 0 <= j < i + 1 implies res.deep_view()[j] == t.deep_view()[j] by {
            if j < i {
                assert(res@[j] == pre[j]);
                assert(res.deep_view()[j] == res@[j].deep_view());
                assert(pre_dv[j] == pre[j].deep_view());
            } else {
                assert(res@[j] == entry);
                assert(res.deep_view()[j] == entry.deep_view());
                assert(t.deep_view()[j] == t@[j].deep_view());
            }
        }
        i = i + 1;
    }
    assert(res.deep_view() =~= t.deep_view());
    res
}

} // verus!
