use vstd::prelude::*;
use vstd::string::StringExecFns;
use crate::host::{spec_host_recv_arp, Host, HostV};
use crate::packet::{Packet, PacketV};
use crate::router::{spec_router_recv_arp, Router, RouterV};
use crate::switch::{Switch, SwitchV};

verus! {

/// Mathematical model of a device.
pub ghost enum DeviceV {
    Host(HostV),
    Router(RouterV),
    Switch(SwitchV),
}

/// A device of the simulated topology. The three kinds share one capability
/// contract — answering ARP requests and receiving packets — each satisfying
/// it in its own way; a closed set of variants dispatched by pattern match
/// stands in for open-ended dynamic dispatch.
pub enum Device {
    Host(Host),
    Router(Router),
    Switch(Switch),
}

impl View for Device {
    type V = DeviceV;

    open spec fn view(&self) -> DeviceV {
        match self {
            Device::Host(h) => DeviceV::Host(h@),
            Device::Router(r) => DeviceV::Router(r@),
            Device::Switch(s) => DeviceV::Switch(s@),
        }
    }
}

impl DeepView for Device {
    type V = DeviceV;

    open spec fn deep_view(&self) -> DeviceV {
        self.view()
    }
}

impl Clone for Device {
    fn clone(&self) -> (res: Self)
        ensures
            res@ == self@,
    {
        match self {
            Device::Host(h) => Device::Host(h.clone()),
            Device::Router(r) => Device::Router(r.clone()),
            Device::Switch(s) => Device::Switch(s.clone()),
        }
    }
}

/// What a device answers to an ARP request, locally: a host or router replies
/// exactly when the request asks for its own IP; a switch is never a direct
/// protocol endpoint and never replies.
pub open spec fn spec_device_recv_arp(d: DeviceV, p: PacketV) -> (DeviceV, Option<PacketV>) {
    match d {
        DeviceV::Host(h) => {
            let r = spec_host_recv_arp(h, p);
            (DeviceV::Host(r.0), r.1)
        },
        DeviceV::Router(rt) => {
            let r = spec_router_recv_arp(rt, p);
            (DeviceV::Router(r.0), r.1)
        },
        DeviceV::Switch(s) => (DeviceV::Switch(s), None),
    }
}

impl Device {
    /// Answers an ARP request as this device's kind prescribes.
    pub fn receive_arp_request(&mut self, packet: &Packet) -> (r: Option<Packet>)
        ensures
            final(self)@ == spec_device_recv_arp(old(self)@, packet@).0,
            r.deep_view() == spec_device_recv_arp(old(self)@, packet@).1,
    {
        match self {
            Device::Host(h) => h.receive_arp_request(packet),
            Device::Router(rt) => rt.receive_arp_request(packet),
            Device::Switch(_) => None,
        }
    }
}

/// The IP a device reports: its own for a host or router; a switch has none
/// and reports a placeholder.
pub open spec fn spec_device_ip(d: DeviceV) -> Seq<char> {
    match d {
        DeviceV::Host(h) => h.ip_address,
        DeviceV::Router(r) => r.ip_address,
        DeviceV::Switch(_) => "N/A"@,
    }
}

/// The description a device reports, by its kind.
pub open spec fn spec_device_info(d: DeviceV) -> Seq<char> {
    match d {
        DeviceV::Host(h) => crate::host::spec_host_info(h),
        DeviceV::Router(r) => crate::router::spec_router_info(r),
        DeviceV::Switch(_) => crate::switch::spec_switch_info(),
    }
}

impl Device {
    /// The device's IP address; a switch reports a placeholder.
    pub fn get_ip_address(&self) -> (r: String)
        ensures
            r@ == spec_device_ip(self@),
    {
        match self {
            Device::Host(h) => h.get_ip_address(),
            Device::Router(rt) => rt.get_ip_address(),
            Device::Switch(_) => String::from_str("N/A"),
        }
    }

    /// A diagnostic description of the device for display.
    pub fn get_device_info(&self) -> (r: String)
        ensures
            r@ == spec_device_info(self@),
    {
        match self {
            Device::Host(h) => h.get_host_info(),
            Device::Router(rt) => rt.get_router_info(),
            Device::Switch(s) => s.get_switch_info(),
        }
    }
}

} // verus!
