//! Peer management: a peer's public key, endpoint, and ordered allowed-IP
//! list, and the marshaling of each into the foreign record layout.

use vstd::prelude::*;

use crate::key::{zero_key_bytes, Key, KEY_SIZE};
use crate::layout::{PeerHandle, RawAllowedIp, RawPeer, AF_INET, AF_INET6};
use crate::net::{
    endpoint_to_sockaddr, pack_ip4, pack_ip6, sockaddr_decodes_to, sockaddr_encodes,
    sockaddr_to_endpoint, unpack_ip4, unpack_ip6, unset_sockaddr, IpAddr,
    lemma_endpoint_round_trip, lemma_ip4_round_trip, lemma_ip6_round_trip,
};

verus! {

broadcast use vstd::array::axiom_array_ext_equal;

/// The endpoint of a peer: an IP address and a UDP port number.
pub type Endpoint = (IpAddr, u16);

/// A set of authorized IP addresses associated with a peer: a network
/// address and a prefix length.
#[derive(Debug, Clone, Copy, PartialEq, Eq)]
pub struct AllowedIp {
    address: IpAddr,
    mask: u8,
}

/// The mathematical content of an `AllowedIp`.
#[verifier::ext_equal]
pub ghost struct AllowedIpV {
    pub addr: IpAddr,
    pub mask: u8,
}

impl View for AllowedIp {
    type V = AllowedIpV;

    closed spec fn view(&self) -> AllowedIpV {
        AllowedIpV { addr: self.address, mask: self.mask }
    }
}

impl DeepView for AllowedIp {
    type V = AllowedIpV;

    open spec fn deep_view(&self) -> AllowedIpV {
        self@
    }
}

/// What a foreign allowed-IP record holds after an allowed IP has been
/// encoded into it with the given successor link: the family tag, the
/// selected family's packed address with the other storage zeroed, the
/// prefix length, and the link.
pub open spec fn allowedip_encodes(raw: RawAllowedIp, a: AllowedIpV, next: Option<usize>) -> bool {
    &&& raw.cidr == a.mask
    &&& raw.next_allowedip == next
    &&& match a.addr {
        IpAddr::V4(o) => raw.family == AF_INET && raw.addr4 == pack_ip4(o@) && raw.addr6@
            == Seq::new(16, |i: int| 0u8),
        IpAddr::V6(g) => raw.family == AF_INET6 && raw.addr6@ == pack_ip6(g@) && raw.addr4 == 0,
    }
}

/// What decoding a foreign allowed-IP record yields: the family the tag
/// selects, its unpacked address, and the prefix length.
pub open spec fn allowedip_decodes_to(raw: RawAllowedIp, a: AllowedIpV) -> bool {
    &&& a.mask == raw.cidr
    &&& if raw.family == AF_INET {
        a.addr matches IpAddr::V4(o) && o@ == unpack_ip4(raw.addr4)
    } else if raw.family == AF_INET6 {
        a.addr matches IpAddr::V6(g) && g@ == unpack_ip6(raw.addr6@)
    } else {
        false
    }
}

impl AllowedIp {
    /// Create a new allowed IP. Total: the prefix length is not validated,
    /// matching the external convention.
    pub fn new(addr: IpAddr, netmask: u8) -> (a: AllowedIp)
        ensures
            a@ == (AllowedIpV { addr, mask: netmask }),
    {
        AllowedIp { address: addr, mask: netmask }
    }

    /// Construct an `AllowedIp` from a foreign record. A family tag other
    /// than the two known families is corrupted foreign data and is excluded
    /// outright.
    pub fn from_handle(h: &RawAllowedIp) -> (a: AllowedIp)
        requires
            h.family == AF_INET || h.family == AF_INET6,
        ensures
            allowedip_decodes_to(*h, a@),
    {
        let address = if h.family == AF_INET {
            IpAddr::V4(crate::net::read_ip4_from_in_addr(h.addr4))
        } else {
            IpAddr::V6(crate::net::read_ip6_from_in6_addr(&h.addr6))
        };
        AllowedIp { address, mask: h.cidr }
    }

    /// Produce the foreign record for this allowed IP, zero-initialized but
    /// for the family, address, and prefix length; the successor link starts
    /// out null and is set when the owning arena is linked.
    pub fn handle(&self) -> (raw: RawAllowedIp)
        ensures
            allowedip_encodes(raw, self@, None),
    {
        match &self.address {
            IpAddr::V4(o) => {
                let raw = RawAllowedIp {
                    family: AF_INET,
                    addr4: crate::net::write_ip4_to_in_addr(o),
                    addr6: [0u8; 16],
                    cidr: self.mask,
                    next_allowedip: None,
                };
                proof {
                    assert(raw.addr6@ =~= Seq::new(16, |i: int| 0u8));
                }
                raw
            },
            IpAddr::V6(g) => {
                RawAllowedIp {
                    family: AF_INET6,
                    addr4: 0,
                    addr6: crate::net::write_ip6_to_in6_addr(g),
                    cidr: self.mask,
                    next_allowedip: None,
                }
            },
        }
    }

    /// Get the IP address.
    pub fn addr(&self) -> (r: &IpAddr)
        ensures
            *r == self@.addr,
    {
        &self.address
    }

    /// Get the prefix length.
    pub fn mask(&self) -> (r: u8)
        ensures
            r == self@.mask,
    {
        self.mask
    }
}

/// A peer attached to a device: an optional public key, an optional
/// endpoint, and an ordered list of allowed IPs.
#[derive(Debug, Clone, PartialEq)]
pub struct Peer {
    public_key: Option<Key>,
    endpoint: Option<Endpoint>,
    allowed_ips: Vec<AllowedIp>,
}

/// The mathematical content of a `Peer`.
#[verifier::ext_equal]
pub ghost struct PeerV {
    pub public_key: Option<Seq<u8>>,
    pub endpoint: Option<Endpoint>,
    pub allowed_ips: Seq<AllowedIpV>,
}

impl View for Peer {
    type V = PeerV;

    closed spec fn view(&self) -> PeerV {
        PeerV {
            public_key: self.public_key.deep_view(),
            endpoint: self.endpoint,
            allowed_ips: self.allowed_ips.deep_view(),
        }
    }
}

impl DeepView for Peer {
    type V = PeerV;

    open spec fn deep_view(&self) -> PeerV {
        self@
    }
}

/// The successor link of the record at position `i` in an arena of `n`
/// records linked in forward order: the next position, or null at the end.
pub open spec fn arena_next(i: int, n: int) -> Option<usize> {
    if i + 1 < n {
        Some((i + 1) as usize)
    } else {
        None
    }
}

/// What a foreign peer record and its allowed-IP arena hold after a peer has
/// been encoded: the "has public key" flag and key bytes exactly where a
/// public key is present (zeroes otherwise), the encoded endpoint, the
/// "replace allowed-IPs" flag always set, one record per allowed IP in list
/// order linked each to the next, and the record's first/last pointers at
/// the ends of the arena (null for an empty list).
pub open spec fn peer_encodes(h: PeerHandle, p: PeerV) -> bool {
    &&& h.peer.replace_allowed_ips
    &&& match p.public_key {
        Some(k) => h.peer.has_public_key && h.peer.public_key@ == k,
        None => !h.peer.has_public_key && h.peer.public_key@ == zero_key_bytes(),
    }
    &&& sockaddr_encodes(h.peer.endpoint, p.endpoint)
    &&& h.allowed_ips@.len() == p.allowed_ips.len()
    &&& forall|i: int|
        0 <= i < p.allowed_ips.len() ==> allowedip_encodes(
            #[trigger] h.allowed_ips@[i],
            p.allowed_ips[i],
            arena_next(i, p.allowed_ips.len() as int),
        )
    &&& if p.allowed_ips.len() == 0 {
        h.peer.first_allowedip is None && h.peer.last_allowedip is None
    } else {
        h.peer.first_allowedip == Some(0usize) && h.peer.last_allowedip == Some(
            (p.allowed_ips.len() - 1) as usize,
        )
    }
}

/// What decoding a foreign peer record yields: a public key exactly where
/// the flag for it is set, the decoded endpoint, and the allowed-IP list
/// read off the arena in forward order.
pub open spec fn peer_decodes_to(h: PeerHandle, p: PeerV) -> bool {
    &&& p.public_key == (if h.peer.has_public_key {
        Some(h.peer.public_key@)
    } else {
        None
    })
    &&& sockaddr_decodes_to(h.peer.endpoint, p.endpoint)
    &&& p.allowed_ips.len() == h.allowed_ips@.len()
    &&& forall|i: int|
        0 <= i < h.allowed_ips@.len() ==> allowedip_decodes_to(
            #[trigger] h.allowed_ips@[i],
            p.allowed_ips[i],
        )
}

/// A peer handle is well formed when its family tags are recognized and its
/// allowed-IP records are linked contiguously in forward order, the shape
/// the encoder produces and the walk of a foreign list is loaded into.
pub open spec fn peer_handle_wf(h: PeerHandle) -> bool {
    &&& h.peer.endpoint.family == crate::layout::AF_UNSPEC || h.peer.endpoint.family == AF_INET
        || h.peer.endpoint.family == AF_INET6
    &&& forall|i: int|
        0 <= i < h.allowed_ips@.len() ==> ((#[trigger] h.allowed_ips@[i]).family == AF_INET
            || h.allowed_ips@[i].family == AF_INET6)
    &&& forall|i: int|
        0 <= i < h.allowed_ips@.len() ==> (#[trigger] h.allowed_ips@[i]).next_allowedip
            == arena_next(i, h.allowed_ips@.len() as int)
    &&& if h.allowed_ips@.len() == 0 {
        h.peer.first_allowedip is None
    } else {
        h.peer.first_allowedip == Some(0usize)
    }
}

/// What the encoder produces is well formed: a peer handle that a peer was
/// encoded into can be decoded.
pub proof fn lemma_encoded_peer_handle_wf(h: PeerHandle, p: PeerV)
    requires
        peer_encodes(h, p),
    ensures
        peer_handle_wf(h),
{
    assert forall|i: int| 0 <= i < h.allowed_ips@.len() implies ((#[trigger] h.allowed_ips@[i]).family
        == AF_INET || h.allowed_ips@[i].family == AF_INET6) && h.allowed_ips@[i].next_allowedip
        == arena_next(i, h.allowed_ips@.len() as int) by {
        assert(allowedip_encodes(
            h.allowed_ips@[i],
            p.allowed_ips[i],
            arena_next(i, p.allowed_ips.len() as int),
        ));
    }
}

impl Peer {
    /// Create a new peer with the given public key and optional endpoint;
    /// the allowed-IP list starts empty.
    pub fn new(public_key: Key, endpoint: Option<Endpoint>) -> (p: Peer)
        ensures
            p@.public_key == Some(public_key@),
            p@.endpoint == endpoint,
            p@.allowed_ips == Seq::<AllowedIpV>::empty(),
    {
        let p = Peer { public_key: Some(public_key), endpoint, allowed_ips: Vec::new() };
        proof {
            assert(p@.allowed_ips =~= Seq::<AllowedIpV>::empty());
        }
        p
    }

    /// Construct a `Peer` from a foreign peer record, walking its allowed-IP
    /// list to completion in forward order.
    pub fn from_handle(h: &PeerHandle) -> (p: Peer)
        requires
            peer_handle_wf(*h),
        ensures
            peer_decodes_to(*h, p@),
    {
        let public_key = if h.peer.has_public_key {
            Some(Key::from_bytes(h.peer.public_key))
        } else {
            None
        };

        let endpoint = sockaddr_to_endpoint(&h.peer.endpoint);

        let arena_len = h.allowed_ips.len();
        let ghost n = arena_len as int;
        let mut ips: Vec<AllowedIp> = Vec::new();
        let mut cur: Option<usize> = h.peer.first_allowedip;
        while cur.is_some()
            invariant
                peer_handle_wf(*h),
                n == h.allowed_ips@.len(),
                n <= usize::MAX,
                ips@.len() <= n,
                cur == arena_next(ips@.len() - 1, n),
                forall|j: int|
                    0 <= j < ips@.len() ==> allowedip_decodes_to(
                        h.allowed_ips@[j],
                        (#[trigger] ips@[j])@,
                    ),
            decreases n - ips@.len(),
        {
            let i = cur.unwrap();
            let node = &h.allowed_ips[i];
            ips.push(AllowedIp::from_handle(node));
            cur = node.next_allowedip;
        }

        let p = Peer { public_key, endpoint, allowed_ips: ips };
        proof {
            assert forall|j: int| 0 <= j < h.allowed_ips@.len() implies allowedip_decodes_to(
                h.allowed_ips@[j],
                p@.allowed_ips[j],
            ) by {
                assert(p@.allowed_ips[j] == ips@[j]@);
            }
        }
        p
    }

    /// Produce the foreign peer record and the arena of allowed-IP records
    /// that backs its linked list, in list order.
    pub fn handle(&self) -> (h: PeerHandle)
        ensures
            peer_encodes(h, self@),
            peer_handle_wf(h),
            h.peer.next_peer is None,
    {
        let ghost n = self.allowed_ips@.len() as int;

        let (has_public_key, public_key) = match &self.public_key {
            Some(k) => (true, k.to_bytes()),
            None => {
                let b = [0u8; KEY_SIZE];
                proof {
                    assert(b@ =~= zero_key_bytes());
                }
                (false, b)
            },
        };

        let endpoint = match &self.endpoint {
            Some(e) => endpoint_to_sockaddr(e),
            None => unset_sockaddr(),
        };

        let mut arena: Vec<RawAllowedIp> = Vec::new();
        let mut i: usize = 0;
        while i < self.allowed_ips.len()
            invariant
                n == self.allowed_ips@.len(),
                i <= n,
                arena@.len() == i,
                forall|j: int|
                    0 <= j < i ==> allowedip_encodes(
                        #[trigger] arena@[j],
                        self.allowed_ips@[j]@,
                        None,
                    ),
            decreases n - i,
        {
            arena.push(self.allowed_ips[i].handle());
            i = i + 1;
        }

        let len = arena.len();
        let mut i: usize = 0;
        while i < len
            invariant
                len == n,
                n == self.allowed_ips@.len(),
                i <= len,
                arena@.len() == len,
                forall|j: int|
                    0 <= j < i ==> allowedip_encodes(
                        #[trigger] arena@[j],
                        self.allowed_ips@[j]@,
                        arena_next(j, n),
                    ),
                forall|j: int|
                    i <= j < len ==> allowedip_encodes(
                        #[trigger] arena@[j],
                        self.allowed_ips@[j]@,
                        None,
                    ),
            decreases len - i,
        {
            if i + 1 < len {
                let mut rec = arena[i];
                rec.next_allowedip = Some(i + 1);
                arena[i] = rec;
            }
            i = i + 1;
        }

        let (first_allowedip, last_allowedip) = if len == 0 {
            (None, None)
        } else {
            (Some(0usize), Some(len - 1))
        };

        let h = PeerHandle {
            peer: RawPeer {
                has_public_key,
                replace_allowed_ips: true,
                public_key,
                endpoint,
                first_allowedip,
                last_allowedip,
                next_peer: None,
            },
            allowed_ips: arena,
        };
        proof {
            assert forall|j: int| 0 <= j < n implies allowedip_encodes(
                #[trigger] h.allowed_ips@[j],
                self@.allowed_ips[j],
                arena_next(j, n),
            ) by {
                assert(self@.allowed_ips[j] == self.allowed_ips@[j]@);
            }
            lemma_encoded_peer_handle_wf(h, self@);
        }
        h
    }

    /// Set the IP address and port of this peer.
    pub fn set_endpoint(&mut self, endpoint: Endpoint)
        ensures
            final(self)@ == (PeerV { endpoint: Some(endpoint), ..old(self)@ }),
    {
        self.endpoint = Some(endpoint);
        proof {
            assert(final(self)@ =~= (PeerV { endpoint: Some(endpoint), ..old(self)@ }));
        }
    }

    /// Add a new allowed IP to this peer, at the end of the list.
    pub fn add_allowed_ip(&mut self, ip: AllowedIp)
        ensures
            final(self)@ == (PeerV {
                allowed_ips: old(self)@.allowed_ips.push(ip@),
                ..old(self)@
            }),
    {
        self.allowed_ips.push(ip);
        proof {
            assert(final(self)@ =~= (PeerV {
                allowed_ips: old(self)@.allowed_ips.push(ip@),
                ..old(self)@
            }));
        }
    }

    /// Get the public key of this peer, if it has been specified.
    pub fn public_key(&self) -> (r: Option<&Key>)
        ensures
            r.deep_view() == self@.public_key,
    {
        self.public_key.as_ref()
    }

    /// Get the internet endpoint of this peer.
    pub fn endpoint(&self) -> (r: Option<&Endpoint>)
        ensures
            r matches Some(e) ==> self@.endpoint == Some(*e),
            r is None ==> self@.endpoint is None,
    {
        self.endpoint.as_ref()
    }

    /// Get the list of allowed IPs.
    pub fn allowed_ips(&self) -> (r: &[AllowedIp])
        ensures
            r.deep_view() == self@.allowed_ips,
    {
        self.allowed_ips.as_slice()
    }

    /// Get a mutable reference to the list of allowed IPs of this peer.
    pub fn allowed_ips_mut(&mut self) -> (r: &mut Vec<AllowedIp>)
        ensures
            (*r).deep_view() == old(self)@.allowed_ips,
            final(self)@.allowed_ips == final(r).deep_view(),
            final(self)@.public_key == old(self)@.public_key,
            final(self)@.endpoint == old(self)@.endpoint,
    {
        &mut self.allowed_ips
    }
}

/// A peer record that a peer was encoded into decodes back to exactly that
/// peer: the forward walk of the linked arena visits its records in
/// insertion order.
pub proof fn lemma_peer_round_trip(h: PeerHandle, p: PeerV, p2: PeerV)
    requires
        peer_encodes(h, p),
        peer_decodes_to(h, p2),
    ensures
        p2 == p,
{
    lemma_endpoint_round_trip(h.peer.endpoint, p.endpoint, p2.endpoint);
    assert forall|i: int| 0 <= i < p.allowed_ips.len() implies p2.allowed_ips[i]
        == p.allowed_ips[i] by {
        lemma_allowedip_round_trip(
            h.allowed_ips@[i],
            p.allowed_ips[i],
            arena_next(i, p.allowed_ips.len() as int),
            p2.allowed_ips[i],
        );
    }
    assert(p2.allowed_ips =~= p.allowed_ips);
    assert(p2 =~= p);
}

/// An allowed-IP record that an allowed IP was encoded into decodes back to
/// exactly that allowed IP, whatever its successor link.
pub proof fn lemma_allowedip_round_trip(
    raw: RawAllowedIp,
    a: AllowedIpV,
    next: Option<usize>,
    a2: AllowedIpV,
)
    requires
        allowedip_encodes(raw, a, next),
        allowedip_decodes_to(raw, a2),
    ensures
        a2 == a,
{
    match a.addr {
        IpAddr::V4(o) => {
            lemma_ip4_round_trip(o@);
            let o2 = a2.addr->V4_0;
            assert(o2 =~= o);
        },
        IpAddr::V6(g) => {
            lemma_ip6_round_trip(g@);
            let g2 = a2.addr->V6_0;
            assert(g2 =~= g);
        },
    }
    assert(a2 =~= a);
}

} // verus!
