//! In-memory model of a WireGuard-style network interface configuration and
//! its marshaling into the fixed-layout record tree consumed by the kernel
//! configuration library.
//!
//! The tree-shaped model (`Device` owning `Peer`s owning `AllowedIp`s) is
//! converted to and from a flat, arena-backed record layout (`DeviceHandle`,
//! `PeerHandle`) in which sibling links are explicit successor indices; the
//! process boundary turns those indices into raw pointers for exactly the
//! duration of one call.

pub use crate::device::{device_name_ok, parse_device_names, Device};
pub use crate::key::{InvalidKey, Key};
pub use crate::layout::{
    DeviceHandle, PeerHandle, RawAllowedIp, RawDevice, RawPeer, RawSockAddr, AF_INET, AF_INET6,
    AF_UNSPEC,
};
pub use crate::net::{
    endpoint_to_sockaddr, read_ip4_from_in_addr, read_ip6_from_in6_addr, sockaddr_to_endpoint,
    write_ip4_to_in_addr, write_ip6_to_in6_addr, IpAddr,
};
pub use crate::peer::{AllowedIp, Endpoint, Peer};

mod device;
mod key;
mod layout;
mod net;
mod peer;
