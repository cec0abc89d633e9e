//! An in-memory simulation of a small layer-2/layer-3 network: end hosts, a
//! MAC-learning switch, and an IP router exchanging synthetic packets to model
//! ARP resolution, bridging, and routing, without real sockets or wire bytes.
//!
//! Devices live in a central [`network::Network`] registry and refer to one
//! another by stable integer indices; a packet send is one synchronous,
//! recursive call chain across the registry, bounded by a hop budget.

pub mod addr;
pub mod device;
pub mod host;
pub mod laws;
pub mod network;
pub mod packet;
pub mod router;
pub mod switch;
pub mod tables;
