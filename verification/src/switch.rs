use vstd::prelude::*;
use vstd::string::StringExecFns;
use crate::tables::{spec_learn, lookup_port, learn_port};

verus! {

/// Mathematical model of a switch: the learned bridge table and the port
/// assignment.
pub ghost struct SwitchV {
    pub mac_table: Seq<(Seq<char>, usize)>,
    pub ports: Seq<Option<usize>>,
}

/// An L2 bridge. `mac_table` records on which port each source MAC was first
/// observed; it is learned, never aged or evicted. `ports` is a fixed-length
/// ordered sequence of optional device indices into the network registry,
/// stable once assigned.
pub struct Switch {
    pub mac_table: Vec<(String, usize)>,
    pub ports: Vec<Option<usize>>,
}

impl View for Switch {
    type V = SwitchV;

    open spec fn view(&self) -> SwitchV {
        SwitchV { mac_table: self.mac_table.deep_view(), ports: self.ports@ }
    }
}

impl Clone for Switch {
    fn clone(&self) -> (res: Self)
        ensures
            res@ == self@,
    {
        Switch {
            mac_table: crate::tables::clone_port_pairs(&self.mac_table),
            ports: vstd::slice::slice_to_vec(self.ports.as_slice()),
        }
    }
}

impl Switch {
    /// A switch with the given number of ports, all free, and an empty bridge
    /// table.
    pub fn new(port_count: usize) -> (res: Self)
        ensures
            res@.mac_table == Seq::<(Seq<char>, usize)>::empty(),
            res@.ports.len() == port_count,
            forall|i: int| 0 <= i < port_count ==> res@.ports[i] is None,
    {
        let ports: Vec<Option<usize>> = vec![None; port_count];
        let res = Switch { mac_table: Vec::new(), ports };
        assert(res@.mac_table =~= Seq::<(Seq<char>, usize)>::empty());
        res
    }

    /// Plugs the device with the given registry index into the first free
    /// port and returns that port's index; `None` reports a full switch.
    pub fn add_device(&mut self, device: usize) -> (r: Option<usize>)
        ensures
            match r {
                Some(i) => {
                    &&& 0 <= i < old(self)@.ports.len()
                    &&& old(self)@.ports[i as int] is None
                    &&& forall|j: int| 0 <= j < i ==> old(self)@.ports[j] is Some
                    &&& final(self)@.ports == old(self)@.ports.update(i as int, Some(device))
                    &&& final(self)@.mac_table == old(self)@.mac_table
                },
                None => {
                    &&& final(self)@ == old(self)@
                    &&& forall|j: int|
                        0 <= j < old(self)@.ports.len() ==> old(self)@.ports[j] is Some
                },
            },
    {
        let n = self.ports.len();
        let mut i: usize = 0;
        while i < n
            invariant
                n == self.ports.len(),
                *self == *old(self),
                0 <= i <= n,
                forall|j: int| 0 <= j < i ==> self@.ports[j] is Some,
            decreases n - i,
        {
            if self.ports[i].is_none() {
                self.ports[i] = Some(device);
                return Some(i);
            }
            i = i + 1;
        }
        None
    }

    /// Records that `src_mac` was observed on `port`: first write wins.
    pub fn learn(&mut self, src_mac: &String, port: usize)
        ensures
            final(self)@ == (SwitchV {
                mac_table: spec_learn(old(self)@.mac_table, src_mac@, port),
                ..old(self)@
            }),
    {
        learn_port(&mut self.mac_table, src_mac, port);
    }

    /// The port on which `mac` was learned, if any.
    pub fn lookup_mac(&self, mac: &String) -> (r: Option<usize>)
        ensures
            r == crate::tables::spec_assoc(self@.mac_table, mac@),
    {
        lookup_port(&self.mac_table, mac)
    }
}

/// The switch's diagnostic description.
pub open spec fn spec_switch_info() -> Seq<char> {
    "SWITCH\n"@
}

impl Switch {
    /// A diagnostic description of the switch for display.
    pub fn get_switch_info(&self) -> (r: String)
        ensures
            r@ == spec_switch_info(),
    {
        String::from_str("SWITCH\n")
    }
}

} // verus!
