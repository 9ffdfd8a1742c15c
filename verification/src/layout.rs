//! The foreign fixed-layout record shapes, modeled as plain structs.
//!
//! The external configuration library consumes trees of C records whose
//! sibling links are raw pointers into contiguous buffers. Here each record
//! keeps the same fields, with two changes that keep the layout safe to
//! reason about: the union-typed address storage is split into one field per
//! family (the unused one zeroed, as the zero-initialized union would be),
//! and every "next"/"first"/"last" pointer is an explicit index into the
//! arena that owns the records, with `None` standing for the null pointer.
//! The process boundary turns indices into addresses for the one call that
//! consumes them.

use vstd::prelude::*;

use crate::key::KEY_SIZE;

verus! {

/// Address-family discriminator meaning "no address present".
pub const AF_UNSPEC: u16 = 0;

/// Address-family discriminator of the four-byte address layout.
pub const AF_INET: u16 = 2;

/// Address-family discriminator of the sixteen-byte address layout.
pub const AF_INET6: u16 = 10;

/// Longest name the foreign device record's name buffer can carry, leaving
/// room for its terminating zero byte.
pub const MAX_NAME_LEN: usize = 15;

/// The union-typed socket-address field: a family tag, a port, and storage
/// for either address family (the one the tag does not select is zero).
#[derive(Debug, Clone, Copy, PartialEq, Eq)]
pub struct RawSockAddr {
    pub family: u16,
    pub port: u16,
    pub addr4: u32,
    pub addr6: [u8; 16],
}

/// One record of a peer's allowed-IP list.
#[derive(Debug, Clone, Copy, PartialEq, Eq)]
pub struct RawAllowedIp {
    pub family: u16,
    pub addr4: u32,
    pub addr6: [u8; 16],
    pub cidr: u8,
    pub next_allowedip: Option<usize>,
}

/// One record of a device's peer list.
#[derive(Debug, Clone, Copy, PartialEq, Eq)]
pub struct RawPeer {
    pub has_public_key: bool,
    pub replace_allowed_ips: bool,
    pub public_key: [u8; KEY_SIZE],
    pub endpoint: RawSockAddr,
    pub first_allowedip: Option<usize>,
    pub last_allowedip: Option<usize>,
    pub next_peer: Option<usize>,
}

/// The foreign device record.
#[derive(Debug, Clone, PartialEq)]
pub struct RawDevice {
    pub name: String,
    pub has_private_key: bool,
    pub has_listen_port: bool,
    pub replace_peers: bool,
    pub private_key: [u8; KEY_SIZE],
    pub public_key: [u8; KEY_SIZE],
    pub listen_port: u16,
    pub first_peer: Option<usize>,
    pub last_peer: Option<usize>,
}

/// A peer record together with the arena that owns its allowed-IP records;
/// the record's list pointers index into that arena.
#[derive(Debug, Clone, PartialEq)]
pub struct PeerHandle {
    pub peer: RawPeer,
    pub allowed_ips: Vec<RawAllowedIp>,
}

/// A device record together with the arena that owns its peer records; the
/// record's list pointers index into that arena. The whole value stays alive
/// for exactly the duration of the one external call that consumes it.
#[derive(Debug, Clone, PartialEq)]
pub struct DeviceHandle {
    pub device: RawDevice,
    pub peers: Vec<PeerHandle>,
}

} // verus!
