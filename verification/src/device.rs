//! Device management: an interface's name, keys, listen port, and ordered
//! peer list, and the marshaling of the whole tree into the foreign record
//! layout in one pass.

use vstd::prelude::*;
use vstd::string::StrSliceExecFns;

use crate::key::{derived_public_of, zero_key_bytes, Key, KEY_SIZE};
use crate::layout::{DeviceHandle, RawDevice, MAX_NAME_LEN};
use crate::peer::{
    arena_next, lemma_peer_round_trip, peer_decodes_to, peer_encodes, peer_handle_wf, Peer, PeerV,
};

verus! {

/// A network interface device: a name, an optional private key, an optional
/// listen port, and an ordered list of peers.
#[derive(Debug, Clone, PartialEq)]
pub struct Device {
    name: String,
    private_key: Option<Key>,
    listen_port: Option<u16>,
    peers: Vec<Peer>,
}

/// The mathematical content of a `Device`.
#[verifier::ext_equal]
pub ghost struct DeviceV {
    pub name: Seq<char>,
    pub private_key: Option<Seq<u8>>,
    pub listen_port: Option<u16>,
    pub peers: Seq<PeerV>,
}

impl View for Device {
    type V = DeviceV;

    closed spec fn view(&self) -> DeviceV {
        DeviceV {
            name: self.name@,
            private_key: self.private_key.deep_view(),
            listen_port: self.listen_port,
            peers: self.peers.deep_view(),
        }
    }
}

/// A character that survives the trip through the foreign zero-terminated
/// byte buffer unchanged: non-zero and seven-bit.
pub open spec fn name_char_ok(c: char) -> bool {
    (c as u32) != 0 && (c as u32) < 128
}

/// A usable device name: non-empty, short enough for the foreign name
/// buffer, and made of characters that survive the trip through the
/// zero-terminated byte buffer unchanged.
pub open spec fn device_name_wf(name: Seq<char>) -> bool {
    &&& 1 <= name.len() <= MAX_NAME_LEN
    &&& forall|i: int| 0 <= i < name.len() ==> name_char_ok(#[trigger] name[i])
}

/// Check a device name for the form `device_name_wf` demands.
pub fn device_name_ok(name: &str) -> (r: bool)
    ensures
        r == device_name_wf(name@),
{
    let len = name.unicode_len();
    if len < 1 || len > MAX_NAME_LEN {
        return false;
    }
    let mut i: usize = 0;
    while i < len
        invariant
            i <= len,
            len == name@.len(),
            1 <= len <= MAX_NAME_LEN,
            forall|j: int| 0 <= j < i ==> name_char_ok(#[trigger] name@[j]),
        decreases len - i,
    {
        let c = name.get_char(i);
        let v = c as u32;
        if v == 0 || v >= 128 {
            return false;
        }
        i = i + 1;
    }
    true
}

/// What the foreign device record and its peer arena hold after a device
/// has been encoded: the name; the "has private key" flag, key bytes and
/// redundantly stored derived public key exactly where a private key is
/// present (zeroes otherwise); the "has listen port" flag and port exactly
/// where a port is present; the "replace peers" flag always set; one peer
/// record per peer in list order linked each to the next; and the record's
/// first/last pointers at the ends of the arena (null for an empty list).
pub open spec fn device_encodes(h: DeviceHandle, d: DeviceV) -> bool {
    &&& h.device.name@ == d.name
    &&& h.device.replace_peers
    &&& match d.private_key {
        Some(k) => h.device.has_private_key && h.device.private_key@ == k
            && h.device.public_key@ == derived_public_of(k),
        None => !h.device.has_private_key && h.device.private_key@ == zero_key_bytes()
            && h.device.public_key@ == zero_key_bytes(),
    }
    &&& match d.listen_port {
        Some(p) => h.device.has_listen_port && h.device.listen_port == p,
        None => !h.device.has_listen_port && h.device.listen_port == 0,
    }
    &&& h.peers@.len() == d.peers.len()
    &&& forall|i: int|
        0 <= i < d.peers.len() ==> peer_encodes(#[trigger] h.peers@[i], d.peers[i])
    &&& forall|i: int|
        0 <= i < d.peers.len() ==> (#[trigger] h.peers@[i]).peer.next_peer == arena_next(
            i,
            d.peers.len() as int,
        )
    &&& if d.peers.len() == 0 {
        h.device.first_peer is None && h.device.last_peer is None
    } else {
        h.device.first_peer == Some(0usize) && h.device.last_peer == Some(
            (d.peers.len() - 1) as usize,
        )
    }
}

/// What decoding a foreign device record yields: the name; a private key
/// exactly where the flag for it is set; a listen port exactly where the
/// stored port is non-zero (zero means "unset" on read); and the peer list
/// read off the arena in forward order.
pub open spec fn device_decodes_to(h: DeviceHandle, d: DeviceV) -> bool {
    &&& d.name == h.device.name@
    &&& d.private_key == (if h.device.has_private_key {
        Some(h.device.private_key@)
    } else {
        None
    })
    &&& d.listen_port == (if h.device.listen_port > 0 {
        Some(h.device.listen_port)
    } else {
        None
    })
    &&& d.peers.len() == h.peers@.len()
    &&& forall|i: int|
        0 <= i < h.peers@.len() ==> peer_decodes_to(#[trigger] h.peers@[i], d.peers[i])
}

/// A device handle is well formed when its name is usable, each peer handle
/// is well formed, and the peer records are linked contiguously in forward
/// order, the shape the encoder produces and the walk of a foreign list is
/// loaded into.
pub open spec fn device_handle_wf(h: DeviceHandle) -> bool {
    &&& device_name_wf(h.device.name@)
    &&& forall|i: int| 0 <= i < h.peers@.len() ==> peer_handle_wf(#[trigger] h.peers@[i])
    &&& forall|i: int|
        0 <= i < h.peers@.len() ==> (#[trigger] h.peers@[i]).peer.next_peer == arena_next(
            i,
            h.peers@.len() as int,
        )
    &&& if h.peers@.len() == 0 {
        h.device.first_peer is None
    } else {
        h.device.first_peer == Some(0usize)
    }
}

impl Device {
    /// Build a new device in memory with the given name and optional
    /// private key, no listen port and no peers; the in-memory half of
    /// creating a fresh interface, whose system half is the caller's.
    pub fn new(name: String, private_key: Option<Key>) -> (d: Device)
        requires
            device_name_wf(name@),
        ensures
            d@ == (DeviceV {
                name: name@,
                private_key: private_key.deep_view(),
                listen_port: None,
                peers: Seq::<PeerV>::empty(),
            }),
    {
        let d = Device { name, private_key, listen_port: None, peers: Vec::new() };
        proof {
            assert(d@.peers =~= Seq::<PeerV>::empty());
            assert(d@ =~= (DeviceV {
                name: d@.name,
                private_key: d@.private_key,
                listen_port: None,
                peers: Seq::<PeerV>::empty(),
            }));
        }
        d
    }

    /// Construct a `Device` from a foreign device record, walking its peer
    /// list to completion in forward order.
    pub fn from_handle(h: &DeviceHandle) -> (d: Device)
        requires
            device_handle_wf(*h),
        ensures
            device_decodes_to(*h, d@),
            device_name_wf(d@.name),
    {
        let name = h.device.name.clone();

        let private_key = if h.device.has_private_key {
            Some(Key::from_bytes(h.device.private_key))
        } else {
            None
        };

        let listen_port = if h.device.listen_port > 0 {
            Some(h.device.listen_port)
        } else {
            None
        };

        let arena_len = h.peers.len();
        let ghost n = arena_len as int;
        let mut peers: Vec<Peer> = Vec::new();
        let mut cur: Option<usize> = h.device.first_peer;
        while cur.is_some()
            invariant
                device_handle_wf(*h),
                n == h.peers@.len(),
                n <= usize::MAX,
                peers@.len() <= n,
                cur == arena_next(peers@.len() - 1, n),
                forall|j: int|
                    0 <= j < peers@.len() ==> peer_decodes_to(
                        h.peers@[j],
                        (#[trigger] peers@[j])@,
                    ),
            decreases n - peers@.len(),
        {
            let i = cur.unwrap();
            let node = &h.peers[i];
            peers.push(Peer::from_handle(node));
            cur = node.peer.next_peer;
        }

        let d = Device { name, private_key, listen_port, peers };
        proof {
            assert forall|j: int| 0 <= j < h.peers@.len() implies peer_decodes_to(
                #[trigger] h.peers@[j],
                d@.peers[j],
            ) by {
                assert(d@.peers[j] == peers@[j]@);
            }
        }
        d
    }

    /// Produce the foreign device record and the arena of peer handles that
    /// backs its linked list, in list order; where a private key is set, the
    /// paired public key is derived and stored alongside it, matching the
    /// foreign convention of redundant storage.
    pub fn handle(&self) -> (h: DeviceHandle)
        requires
            device_name_wf(self@.name),
        ensures
            device_encodes(h, self@),
            device_handle_wf(h),
    {
        let name = self.name.clone();

        let (has_private_key, private_key, public_key) = match &self.private_key {
            Some(k) => (true, k.to_bytes(), k.derive_public().to_bytes()),
            None => {
                let b = [0u8; KEY_SIZE];
                proof {
                    assert(b@ =~= zero_key_bytes());
                }
                (false, b, b)
            },
        };

        let (has_listen_port, listen_port) = match self.listen_port {
            Some(p) => (true, p),
            None => (false, 0),
        };

        let n_exec = self.peers.len();
        let ghost n = n_exec as int;
        let mut arena: Vec<crate::layout::PeerHandle> = Vec::new();
        let mut i: usize = 0;
        while i < n_exec
            invariant
                n == self.peers@.len(),
                n_exec as int == n,
                i <= n,
                arena@.len() == i,
                forall|j: int|
                    0 <= j < i ==> peer_encodes(#[trigger] arena@[j], self.peers@[j]@),
                forall|j: int|
                    0 <= j < i ==> (#[trigger] arena@[j]).peer.next_peer == arena_next(j, n),
            decreases n - i,
        {
            let mut ph = self.peers[i].handle();
            if i + 1 < n_exec {
                ph.peer.next_peer = Some(i + 1);
            }
            arena.push(ph);
            i = i + 1;
        }

        let (first_peer, last_peer) = if n_exec == 0 {
            (None, None)
        } else {
            (Some(0usize), Some(n_exec - 1))
        };

        let h = DeviceHandle {
            device: RawDevice {
                name,
                has_private_key,
                has_listen_port,
                replace_peers: true,
                private_key,
                public_key,
                listen_port,
                first_peer,
                last_peer,
            },
            peers: arena,
        };
        proof {
            assert forall|j: int| 0 <= j < n implies peer_encodes(
                #[trigger] h.peers@[j],
                self@.peers[j],
            ) by {
                assert(self@.peers[j] == self.peers@[j]@);
            }
            lemma_encoded_device_handle_wf(h, self@);
        }
        h
    }

    /// Set the UDP listening port of this device.
    pub fn set_listen_port(&mut self, port: u16)
        ensures
            final(self)@ == (DeviceV { listen_port: Some(port), ..old(self)@ }),
    {
        self.listen_port = Some(port);
        proof {
            assert(final(self)@ =~= (DeviceV { listen_port: Some(port), ..old(self)@ }));
        }
    }

    /// Attach a new peer to the device, at the end of the list.
    pub fn add_peer(&mut self, peer: Peer)
        ensures
            final(self)@ == (DeviceV { peers: old(self)@.peers.push(peer@), ..old(self)@ }),
    {
        self.peers.push(peer);
        proof {
            assert(final(self)@ =~= (DeviceV {
                peers: old(self)@.peers.push(peer@),
                ..old(self)@
            }));
        }
    }

    /// Get the name of this device.
    pub fn name(&self) -> (r: &str)
        ensures
            r@ == self@.name,
    {
        self.name.as_str()
    }

    /// Get the public key of this device, derived on demand from the
    /// private key; absent where no private key is set.
    pub fn public_key(&self) -> (r: Option<Key>)
        ensures
            self@.private_key matches Some(sk) ==> (r matches Some(pk) && pk@
                == derived_public_of(sk)),
            self@.private_key is None ==> r is None,
    {
        match &self.private_key {
            Some(k) => Some(k.derive_public()),
            None => None,
        }
    }

    /// Get the private key of this device, if any.
    pub fn private_key(&self) -> (r: Option<&Key>)
        ensures
            r.deep_view() == self@.private_key,
    {
        self.private_key.as_ref()
    }

    /// Get the UDP listening port of this device, if it has been set.
    pub fn listen_port(&self) -> (r: Option<u16>)
        ensures
            r == self@.listen_port,
    {
        self.listen_port
    }

    /// Get a read-only view of the list of peers.
    pub fn peers(&self) -> (r: &Vec<Peer>)
        ensures
            r.deep_view() == self@.peers,
    {
        &self.peers
    }

    /// Get a mutable reference to the list of peers of this device.
    pub fn peers_mut(&mut self) -> (r: &mut Vec<Peer>)
        ensures
            (*r).deep_view() == old(self)@.peers,
            final(self)@.peers == final(r).deep_view(),
            final(self)@.name == old(self)@.name,
            final(self)@.private_key == old(self)@.private_key,
            final(self)@.listen_port == old(self)@.listen_port,
    {
        &mut self.peers
    }
}

/// What the encoder produces is well formed: a device handle that a device
/// was encoded into can be decoded.
pub proof fn lemma_encoded_device_handle_wf(h: DeviceHandle, d: DeviceV)
    requires
        device_encodes(h, d),
        device_name_wf(d.name),
    ensures
        device_handle_wf(h),
{
    assert forall|i: int| 0 <= i < h.peers@.len() implies peer_handle_wf(
        #[trigger] h.peers@[i],
    ) by {
        crate::peer::lemma_encoded_peer_handle_wf(h.peers@[i], d.peers[i]);
    }
}

/// Position of the first zero byte of `buf`, or `buf.len()` where there is
/// none.
pub open spec fn first_nul(buf: Seq<u8>) -> int
    decreases buf.len(),
{
    if buf.len() == 0 || buf[0] == 0 {
        0
    } else {
        1 + first_nul(buf.drop_first())
    }
}

/// `first_nul` finds a zero byte with no zero byte before it.
pub proof fn lemma_first_nul(buf: Seq<u8>)
    ensures
        0 <= first_nul(buf) <= buf.len(),
        first_nul(buf) < buf.len() ==> buf[first_nul(buf)] == 0,
        forall|j: int| 0 <= j < first_nul(buf) ==> buf[j] != 0,
    decreases buf.len(),
{
    if buf.len() == 0 || buf[0] == 0 {
    } else {
        lemma_first_nul(buf.drop_first());
        assert(first_nul(buf) == 1 + first_nul(buf.drop_first()));
        if first_nul(buf) < buf.len() {
            assert(buf.drop_first()[first_nul(buf.drop_first())] == buf[first_nul(buf)]);
        }
        assert forall|j: int| 0 <= j < first_nul(buf) implies buf[j] != 0 by {
            if j > 0 {
                assert(buf.drop_first()[j - 1] == buf[j]);
            }
        }
    }
}

/// A scan that stops at position `e` on a zero byte (or the end) with no
/// zero byte before it has found `first_nul`.
pub proof fn lemma_first_nul_unique(buf: Seq<u8>, e: int)
    requires
        0 <= e <= buf.len(),
        forall|j: int| 0 <= j < e ==> buf[j] != 0,
        e < buf.len() ==> buf[e] == 0,
    ensures
        first_nul(buf) == e,
    decreases buf.len(),
{
    if e == 0 {
    } else {
        assert(buf[0] != 0);
        lemma_first_nul_unique(buf.drop_first(), e - 1);
    }
}

/// The names packed into a byte buffer: each name runs to the next zero
/// byte, and the list ends at an empty name (a second zero in a row) or at
/// the end of the buffer.
pub open spec fn names_of(buf: Seq<u8>) -> Seq<Seq<u8>>
    decreases buf.len(),
    via names_of_decreases
{
    if buf.len() == 0 || buf[0] == 0 {
        Seq::empty()
    } else {
        let e = first_nul(buf);
        if e < buf.len() {
            seq![buf.take(e)] + names_of(buf.skip(e + 1))
        } else {
            seq![buf.take(e)]
        }
    }
}

#[via_fn]
proof fn names_of_decreases(buf: Seq<u8>) {
    lemma_first_nul(buf);
}

/// Split a packed, zero-separated name list into its names: the pure half
/// of enumerating every device present on the system, applied to the byte
/// buffer the external enumerator hands back.
pub fn parse_device_names(buf: &[u8]) -> (names: Vec<Vec<u8>>)
    ensures
        names.deep_view() == names_of(buf@),
{
    let len = buf.len();
    let mut names: Vec<Vec<u8>> = Vec::new();
    let mut i: usize = 0;
    proof {
        assert(buf@.skip(0) =~= buf@);
        assert(names.deep_view() =~= Seq::<Seq<u8>>::empty());
        assert(names.deep_view() + names_of(buf@) =~= names_of(buf@));
    }
    while i < len && *vstd::slice::slice_index_get(buf, i) != 0
        invariant
            len == buf@.len(),
            i <= len,
            names_of(buf@) == names.deep_view() + names_of(buf@.skip(i as int)),
        decreases len - i,
    {
        let start = i;
        let mut j = i;
        while j < len && *vstd::slice::slice_index_get(buf, j) != 0
            invariant
                len == buf@.len(),
                start <= j <= len,
                forall|k: int| start <= k < j ==> buf@[k] != 0,
            decreases len - j,
        {
            j = j + 1;
        }

        let ghost rest = buf@.skip(start as int);
        proof {
            assert forall|k: int| 0 <= k < j - start implies rest[k] != 0 by {
                assert(rest[k] == buf@[start + k]);
            }
            if j < len {
                assert(rest[j - start] == buf@[j as int]);
            }
            lemma_first_nul_unique(rest, j - start);
        }

        let name_slice = vstd::slice::slice_subrange(buf, start, j);
        let name = vstd::slice::slice_to_vec(name_slice);
        let ghost old_names = names.deep_view();
        names.push(name);
        proof {
            assert(names.deep_view() =~~= old_names.push(name@));
            assert(name@ =~= rest.take(j - start));
        }

        if j < len {
            i = j + 1;
            proof {
                assert(buf@.skip(j + 1) =~= rest.skip(j - start + 1));
                assert(names_of(rest) == seq![rest.take(j - start)] + names_of(
                    rest.skip(j - start + 1),
                ));
                assert(names.deep_view() + names_of(buf@.skip(i as int)) =~= (old_names + seq![
                    rest.take(j - start)]) + names_of(rest.skip(j - start + 1)));
                assert((old_names + seq![rest.take(j - start)]) + names_of(
                    rest.skip(j - start + 1),
                ) =~= old_names + names_of(rest));
            }
        } else {
            i = j;
            proof {
                assert(names_of(rest) == seq![rest.take(j - start)]);
                assert(buf@.skip(i as int) =~= Seq::<u8>::empty());
                assert(names.deep_view() + names_of(buf@.skip(i as int)) =~= old_names
                    + names_of(rest));
            }
        }
    }
    proof {
        if i < len {
            assert(buf@.skip(i as int)[0] == buf@[i as int]);
        }
        assert(names_of(buf@.skip(i as int)) =~= Seq::<Seq<u8>>::empty());
        assert(names.deep_view() + names_of(buf@.skip(i as int)) =~= names.deep_view());
    }
    names
}

/// A device record that a device was encoded into decodes back to exactly
/// that device, peer order and allowed-IP order preserved. The one input
/// left out is a device whose listen port is set to zero: the foreign
/// layout reads a stored zero port as "unset".
pub proof fn lemma_device_round_trip(h: DeviceHandle, d: DeviceV, d2: DeviceV)
    requires
        device_encodes(h, d),
        device_decodes_to(h, d2),
        d.listen_port matches Some(p) ==> p > 0,
    ensures
        d2 == d,
{
    assert forall|i: int| 0 <= i < d.peers.len() implies d2.peers[i] == d.peers[i] by {
        lemma_peer_round_trip(h.peers@[i], d.peers[i], d2.peers[i]);
    }
    assert(d2.peers =~= d.peers);
    assert(d2 =~= d);
}

/// A device with no peers is encoded with null first/last peer pointers,
/// and any device read back from such a record has no peers.
pub proof fn lemma_empty_device(h: DeviceHandle, d: DeviceV, d2: DeviceV)
    requires
        device_encodes(h, d),
        d.peers.len() == 0,
    ensures
        h.device.first_peer is None,
        h.device.last_peer is None,
        device_decodes_to(h, d2) ==> d2.peers.len() == 0,
{
}

} // verus!
