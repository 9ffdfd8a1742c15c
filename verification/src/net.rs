//! The address-family codec: lossless conversion between a tagged address
//! value and the two fixed-layout socket-address encodings.

use vstd::prelude::*;

use crate::layout::{RawSockAddr, AF_INET, AF_INET6, AF_UNSPEC};
use crate::peer::Endpoint;

verus! {

broadcast use vstd::array::axiom_array_ext_equal;

/// An IP address: either four octets, or eight 16-bit segments.
#[derive(Debug, Clone, Copy, PartialEq, Eq)]
pub enum IpAddr {
    V4([u8; 4]),
    V6([u16; 8]),
}

/// The four-byte address packed into the foreign 32-bit field: the first
/// octet is the least significant byte, as the byte-for-byte copy into the
/// little-endian field leaves it.
pub open spec fn pack_ip4(o: Seq<u8>) -> u32 {
    (o[0] as u32) | ((o[1] as u32) << 8) | ((o[2] as u32) << 16) | ((o[3] as u32) << 24)
}

/// The four octets recovered from the foreign 32-bit field.
pub open spec fn unpack_ip4(s: u32) -> Seq<u8> {
    seq![(s & 0xff) as u8, ((s >> 8) & 0xff) as u8, ((s >> 16) & 0xff) as u8, (
    (s >> 24) & 0xff) as u8]
}

/// The eight segments laid out as sixteen bytes, each segment high byte
/// first.
pub open spec fn pack_ip6(g: Seq<u16>) -> Seq<u8> {
    Seq::new(
        16,
        |i: int|
            if i % 2 == 0 {
                ((g[i / 2] >> 8) & 0xff) as u8
            } else {
                (g[i / 2] & 0xff) as u8
            },
    )
}

/// The eight segments recovered from sixteen bytes.
pub open spec fn unpack_ip6(b: Seq<u8>) -> Seq<u16> {
    Seq::new(8, |i: int| ((b[2 * i] as u16) << 8) | (b[2 * i + 1] as u16))
}

/// Packing four octets and unpacking them again gives the octets back.
pub proof fn lemma_ip4_round_trip(o: Seq<u8>)
    requires
        o.len() == 4,
    ensures
        unpack_ip4(pack_ip4(o)) == o,
{
    let a = o[0];
    let b = o[1];
    let c = o[2];
    let d = o[3];
    let s = (a as u32) | ((b as u32) << 8) | ((c as u32) << 16) | ((d as u32) << 24);
    assert((s & 0xff) as u8 == a && ((s >> 8) & 0xff) as u8 == b && ((s >> 16) & 0xff) as u8 == c
        && ((s >> 24) & 0xff) as u8 == d) by (bit_vector)
        requires
            s == (a as u32) | ((b as u32) << 8) | ((c as u32) << 16) | ((d as u32) << 24),
    ;
    assert(unpack_ip4(pack_ip4(o)) =~= o);
}

/// Laying eight segments out as bytes and reading them back gives the
/// segments back.
pub proof fn lemma_ip6_round_trip(g: Seq<u16>)
    requires
        g.len() == 8,
    ensures
        unpack_ip6(pack_ip6(g)) == g,
{
    assert forall|i: int| 0 <= i < 8 implies unpack_ip6(pack_ip6(g))[i] == g[i] by {
        let x = g[i];
        assert(((((x >> 8) & 0xff) as u8 as u16) << 8) | ((x & 0xff) as u8 as u16) == x)
            by (bit_vector);
    }
    assert(unpack_ip6(pack_ip6(g)) =~= g);
}

/// What the foreign socket-address field holds after an endpoint (or its
/// absence) has been encoded into it: the family tag, the port, the selected
/// family's packed address, and zeroes everywhere else.
pub open spec fn sockaddr_encodes(s: RawSockAddr, e: Option<Endpoint>) -> bool {
    match e {
        None => s.family == AF_UNSPEC && s.port == 0 && s.addr4 == 0 && s.addr6@ == Seq::new(
            16,
            |i: int| 0u8,
        ),
        Some((a, p)) => match a {
            IpAddr::V4(o) => s.family == AF_INET && s.port == p && s.addr4 == pack_ip4(o@)
                && s.addr6@ == Seq::new(16, |i: int| 0u8),
            IpAddr::V6(g) => s.family == AF_INET6 && s.port == p && s.addr6@ == pack_ip6(g@)
                && s.addr4 == 0,
        },
    }
}

/// What decoding a foreign socket-address field yields: no endpoint where
/// the family tag is unset, and the matching family's address and port
/// otherwise. A tag that is none of the three is corrupted foreign data and
/// decodes to nothing.
pub open spec fn sockaddr_decodes_to(s: RawSockAddr, r: Option<Endpoint>) -> bool {
    if s.family == AF_UNSPEC {
        r is None
    } else if s.family == AF_INET {
        r matches Some((IpAddr::V4(o), p)) && p == s.port && o@ == unpack_ip4(s.addr4)
    } else if s.family == AF_INET6 {
        r matches Some((IpAddr::V6(g), p)) && p == s.port && g@ == unpack_ip6(s.addr6@)
    } else {
        false
    }
}

/// Pack the four-octet address into the foreign 32-bit field.
pub fn write_ip4_to_in_addr(octets: &[u8; 4]) -> (r: u32)
    ensures
        r == pack_ip4(octets@),
{
    (octets[0] as u32) | ((octets[1] as u32) << 8) | ((octets[2] as u32) << 16) | ((octets[3]
        as u32) << 24)
}

/// Recover the four octets from the foreign 32-bit field.
pub fn read_ip4_from_in_addr(s_addr: u32) -> (r: [u8; 4])
    ensures
        r@ == unpack_ip4(s_addr),
{
    let r = [(s_addr & 0xff) as u8, ((s_addr >> 8) & 0xff) as u8, ((s_addr >> 16) & 0xff) as u8, (
    (s_addr >> 24) & 0xff) as u8];
    proof {
        assert(r@ =~= unpack_ip4(s_addr));
    }
    r
}

/// Lay the eight segments out as the foreign sixteen-byte field.
pub fn write_ip6_to_in6_addr(segments: &[u16; 8]) -> (r: [u8; 16])
    ensures
        r@ == pack_ip6(segments@),
{
    let mut r = [0u8; 16];
    let mut i: usize = 0;
    while i < 8
        invariant
            i <= 8,
            forall|j: int| 0 <= j < 2 * i ==> r@[j] == pack_ip6(segments@)[j],
        decreases 8 - i,
    {
        r[2 * i] = ((segments[i] >> 8) & 0xff) as u8;
        r[2 * i + 1] = (segments[i] & 0xff) as u8;
        i = i + 1;
    }
    proof {
        assert(r@ =~= pack_ip6(segments@));
    }
    r
}

/// Recover the eight segments from the foreign sixteen-byte field.
pub fn read_ip6_from_in6_addr(bytes: &[u8; 16]) -> (r: [u16; 8])
    ensures
        r@ == unpack_ip6(bytes@),
{
    let mut r = [0u16; 8];
    let mut i: usize = 0;
    while i < 8
        invariant
            i <= 8,
            forall|j: int| 0 <= j < i ==> r@[j] == unpack_ip6(bytes@)[j],
        decreases 8 - i,
    {
        r[i] = ((bytes[2 * i] as u16) << 8) | (bytes[2 * i + 1] as u16);
        i = i + 1;
    }
    proof {
        assert(r@ =~= unpack_ip6(bytes@));
    }
    r
}

/// Given a peer endpoint, produce the foreign socket-address field holding
/// its address and port.
pub fn endpoint_to_sockaddr(endpoint: &Endpoint) -> (s: RawSockAddr)
    ensures
        sockaddr_encodes(s, Some(*endpoint)),
{
    let (addr, port) = endpoint;
    match addr {
        IpAddr::V4(ip4) => {
            let s = RawSockAddr {
                family: AF_INET,
                port: *port,
                addr4: write_ip4_to_in_addr(ip4),
                addr6: [0u8; 16],
            };
            proof {
                assert(s.addr6@ =~= Seq::new(16, |i: int| 0u8));
            }
            s
        },
        IpAddr::V6(ip6) => {
            let s = RawSockAddr {
                family: AF_INET6,
                port: *port,
                addr4: 0,
                addr6: write_ip6_to_in6_addr(ip6),
            };
            s
        },
    }
}

/// Produce the zero-initialized socket-address field that stands for "no
/// endpoint present".
pub fn unset_sockaddr() -> (s: RawSockAddr)
    ensures
        sockaddr_encodes(s, None),
{
    let s = RawSockAddr { family: AF_UNSPEC, port: 0, addr4: 0, addr6: [0u8; 16] };
    proof {
        assert(s.addr6@ =~= Seq::new(16, |i: int| 0u8));
    }
    s
}

/// Convert the foreign socket-address field back into a peer endpoint; a
/// family tag of "unset" yields no endpoint. An unrecognized tag is a fatal
/// sign of a corrupted foreign record and is excluded outright rather than
/// decoded to a guess.
pub fn sockaddr_to_endpoint(saddr: &RawSockAddr) -> (r: Option<Endpoint>)
    requires
        saddr.family == AF_UNSPEC || saddr.family == AF_INET || saddr.family == AF_INET6,
    ensures
        sockaddr_decodes_to(*saddr, r),
{
    if saddr.family == AF_UNSPEC {
        None
    } else if saddr.family == AF_INET {
        Some((IpAddr::V4(read_ip4_from_in_addr(saddr.addr4)), saddr.port))
    } else {
        Some((IpAddr::V6(read_ip6_from_in6_addr(&saddr.addr6)), saddr.port))
    }
}

/// The endpoint codec round-trips: a socket-address field that an endpoint
/// value (or its absence) was encoded into decodes back to exactly that
/// value.
pub proof fn lemma_endpoint_round_trip(s: RawSockAddr, e: Option<Endpoint>, r: Option<Endpoint>)
    requires
        sockaddr_encodes(s, e),
        sockaddr_decodes_to(s, r),
    ensures
        r == e,
{
    match e {
        None => {
        },
        Some((a, p)) => match a {
            IpAddr::V4(o) => {
                lemma_ip4_round_trip(o@);
                let ep = r->0;
                let o2 = ep.0->V4_0;
                assert(o2@ == o@);
                assert(o2 =~= o);
            },
            IpAddr::V6(g) => {
                lemma_ip6_round_trip(g@);
                let ep = r->0;
                let g2 = ep.0->V6_0;
                assert(g2@ == g@);
                assert(g2 =~= g);
            },
        },
    }
}

} // verus!
