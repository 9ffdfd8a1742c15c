use rwg::{AllowedIp, IpAddr, Key, Peer, RawAllowedIp};

#[test]
fn allowed_ip_new_and_accessors() {
    let ip = AllowedIp::new(IpAddr::V4([10, 0, 0, 2]), 32);
    assert_eq!(*ip.addr(), IpAddr::V4([10, 0, 0, 2]));
    assert_eq!(ip.mask(), 32);
}

#[test]
fn allowed_ip_v4_record_round_trip() {
    let ip = AllowedIp::new(IpAddr::V4([192, 168, 1, 1]), 24);
    let raw = ip.handle();
    assert_eq!(raw.family, 2);
    assert_eq!(raw.addr4, 0x0101_a8c0);
    assert_eq!(raw.cidr, 24);
    assert_eq!(raw.next_allowedip, None);
    assert_eq!(AllowedIp::from_handle(&raw), ip);
}

#[test]
fn allowed_ip_v6_record_round_trip() {
    let ip = AllowedIp::new(IpAddr::V6([0xfd00, 0, 0, 0, 0, 0, 0, 7]), 128);
    let raw = ip.handle();
    assert_eq!(raw.family, 10);
    assert_eq!(raw.cidr, 128);
    assert_eq!(AllowedIp::from_handle(&raw), ip);
}

#[test]
fn allowed_ip_prefix_length_is_not_validated() {
    // Total by design: out-of-range prefix lengths are stored as given.
    let ip = AllowedIp::new(IpAddr::V4([10, 0, 0, 1]), 255);
    assert_eq!(ip.mask(), 255);
}

#[test]
fn peer_new_starts_with_empty_allowed_ips() {
    let peer = Peer::new(Key::zero(), None);
    assert_eq!(peer.public_key(), Some(&Key::zero()));
    assert_eq!(peer.endpoint(), None);
    assert!(peer.allowed_ips().is_empty());
}

#[test]
fn peer_set_endpoint_and_add_allowed_ip() {
    let mut peer = Peer::new(Key::zero(), None);
    peer.set_endpoint((IpAddr::V4([1, 1, 1, 1]), 53));
    peer.add_allowed_ip(AllowedIp::new(IpAddr::V4([10, 0, 0, 1]), 32));
    peer.add_allowed_ip(AllowedIp::new(IpAddr::V4([10, 0, 0, 2]), 31));
    assert_eq!(peer.endpoint(), Some(&(IpAddr::V4([1, 1, 1, 1]), 53)));
    assert_eq!(peer.allowed_ips().len(), 2);
    assert_eq!(*peer.allowed_ips()[0].addr(), IpAddr::V4([10, 0, 0, 1]));
    assert_eq!(*peer.allowed_ips()[1].addr(), IpAddr::V4([10, 0, 0, 2]));
}

#[test]
fn peer_handle_links_allowed_ips_in_order() {
    let mut peer = Peer::new(Key::from_bytes([9u8; 32]), Some((IpAddr::V4([8, 8, 8, 8]), 4242)));
    for i in 0..3u8 {
        peer.add_allowed_ip(AllowedIp::new(IpAddr::V4([10, 0, 0, i]), 32));
    }
    let h = peer.handle();

    assert!(h.peer.has_public_key);
    assert!(h.peer.replace_allowed_ips);
    assert_eq!(h.peer.public_key, [9u8; 32]);
    assert_eq!(h.peer.next_peer, None);

    // The linked buffer holds one record per allowed IP, in insertion
    // order, each linked to the next, the last one's successor null.
    assert_eq!(h.allowed_ips.len(), 3);
    assert_eq!(h.peer.first_allowedip, Some(0));
    assert_eq!(h.peer.last_allowedip, Some(2));
    assert_eq!(h.allowed_ips[0].next_allowedip, Some(1));
    assert_eq!(h.allowed_ips[1].next_allowedip, Some(2));
    assert_eq!(h.allowed_ips[2].next_allowedip, None);
    for i in 0..3usize {
        assert_eq!(h.allowed_ips[i].addr4, u32::from_le_bytes([10, 0, 0, i as u8]));
    }

    // A forward traversal of the links visits exactly the three records.
    let mut visited: Vec<&RawAllowedIp> = Vec::new();
    let mut cur = h.peer.first_allowedip;
    while let Some(i) = cur {
        visited.push(&h.allowed_ips[i]);
        cur = h.allowed_ips[i].next_allowedip;
    }
    assert_eq!(visited.len(), 3);
}

#[test]
fn peer_handle_of_empty_list_has_null_ends() {
    let peer = Peer::new(Key::zero(), None);
    let h = peer.handle();
    assert_eq!(h.peer.first_allowedip, None);
    assert_eq!(h.peer.last_allowedip, None);
    assert!(h.allowed_ips.is_empty());
}

#[test]
fn peer_record_round_trip_preserves_order() {
    let mut peer = Peer::new(
        Key::from_bytes([3u8; 32]),
        Some((IpAddr::V6([0x2001, 0xdb8, 0, 0, 0, 0, 0, 99]), 51820)),
    );
    peer.add_allowed_ip(AllowedIp::new(IpAddr::V4([10, 1, 0, 0]), 16));
    peer.add_allowed_ip(AllowedIp::new(IpAddr::V6([0xfd00, 0, 0, 0, 0, 0, 0, 1]), 128));
    peer.add_allowed_ip(AllowedIp::new(IpAddr::V4([10, 2, 0, 0]), 16));

    let back = Peer::from_handle(&peer.handle());
    assert_eq!(back, peer);
}

#[test]
fn peer_without_public_key_round_trips_flag() {
    let mut peer = Peer::new(Key::zero(), None);
    let h = peer.handle();
    assert!(h.peer.has_public_key);

    // A record whose "has public key" flag is clear decodes to a peer
    // without one, whatever the key bytes hold.
    let mut h2 = h.clone();
    h2.peer.has_public_key = false;
    let back = Peer::from_handle(&h2);
    assert_eq!(back.public_key(), None);
    peer.set_endpoint((IpAddr::V4([1, 2, 3, 4]), 1));
    assert_ne!(back, peer);
}
