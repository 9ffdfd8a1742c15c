use rwg::{device_name_ok, parse_device_names, AllowedIp, Device, IpAddr, Key, Peer};

#[test]
fn create_and_retrieve() {
    let dev_name = "testwg0";

    // Build a new test device in memory.
    let mut dev = Device::new(dev_name.to_string(), Some(Key::generate_private()));
    dev.set_listen_port(1337);

    let mut peer = Peer::new(
        Key::generate_private().derive_public(),
        Some((IpAddr::V4([1, 1, 1, 1]), 42069)),
    );
    peer.add_allowed_ip(AllowedIp::new(IpAddr::V4([10, 0, 0, 1]), 32));
    dev.add_peer(peer);

    let mut peer = Peer::new(Key::generate_private().derive_public(), None);
    peer.add_allowed_ip(AllowedIp::new(IpAddr::V4([10, 0, 0, 2]), 32));
    dev.add_peer(peer);

    // Marshal the tree into the foreign layout and read it back, as a save
    // followed by an open would.
    let reopened = Device::from_handle(&dev.clone().handle());
    assert_eq!(1, parse_device_names(b"testwg0\0\0").len());
    assert_eq!(dev, reopened);
}

#[test]
fn device_round_trip_scenario() {
    // Build device "wgtest0" with a generated private key and listen port
    // 51820, one peer with a generated public key, endpoint
    // 203.0.113.5:51820, and one allowed IP 10.0.0.2/32.
    let private = Key::generate_private();
    let peer_public = Key::generate_private().derive_public();

    let mut dev = Device::new("wgtest0".to_string(), Some(private));
    dev.set_listen_port(51820);

    let mut peer = Peer::new(peer_public.clone(), Some((IpAddr::V4([203, 0, 113, 5]), 51820)));
    peer.add_allowed_ip(AllowedIp::new(IpAddr::V4([10, 0, 0, 2]), 32));
    dev.add_peer(peer);

    let reopened = Device::from_handle(&dev.handle());
    assert_eq!(reopened.name(), "wgtest0");
    assert_eq!(reopened.listen_port(), Some(51820));
    assert_eq!(reopened.peers().len(), 1);
    let p = &reopened.peers()[0];
    assert_eq!(p.public_key(), Some(&peer_public));
    assert_eq!(p.endpoint(), Some(&(IpAddr::V4([203, 0, 113, 5]), 51820)));
    assert_eq!(p.allowed_ips().len(), 1);
    assert_eq!(*p.allowed_ips()[0].addr(), IpAddr::V4([10, 0, 0, 2]));
    assert_eq!(p.allowed_ips()[0].mask(), 32);
}

#[test]
fn empty_device_has_null_peer_pointers() {
    let dev = Device::new("wg0".to_string(), Some(Key::generate_private()));
    let h = dev.handle();
    assert_eq!(h.device.first_peer, None);
    assert_eq!(h.device.last_peer, None);
    assert!(h.peers.is_empty());
    assert!(h.device.replace_peers);

    let back = Device::from_handle(&h);
    assert_eq!(back.peers().len(), 0);
}

#[test]
fn device_record_stores_derived_public_key() {
    let private = Key::from_bytes([0u8; 32]);
    let dev = Device::new("wg0".to_string(), Some(private.clone()));
    let h = dev.handle();
    assert!(h.device.has_private_key);
    assert_eq!(&h.device.private_key[..], private.as_bytes());
    assert_eq!(&h.device.public_key[..], private.derive_public().as_bytes());
}

#[test]
fn device_without_private_key_has_zeroed_key_fields() {
    let dev = Device::new("wg0".to_string(), None);
    let h = dev.handle();
    assert!(!h.device.has_private_key);
    assert_eq!(h.device.private_key, [0u8; 32]);
    assert_eq!(h.device.public_key, [0u8; 32]);
    assert_eq!(dev.public_key(), None);
    assert_eq!(dev.private_key(), None);
}

#[test]
fn device_without_listen_port_round_trips_as_unset() {
    let dev = Device::new("wg0".to_string(), None);
    let h = dev.handle();
    assert!(!h.device.has_listen_port);
    assert_eq!(h.device.listen_port, 0);
    assert_eq!(Device::from_handle(&h).listen_port(), None);
}

#[test]
fn device_public_key_is_derived_on_demand() {
    let private = Key::generate_private();
    let dev = Device::new("wg0".to_string(), Some(private.clone()));
    assert_eq!(dev.public_key(), Some(private.derive_public()));
    assert_eq!(dev.private_key(), Some(&private));
}

#[test]
fn device_peer_order_is_preserved() {
    let mut dev = Device::new("wg0".to_string(), Some(Key::generate_private()));
    dev.set_listen_port(7);
    let mut keys = Vec::new();
    for i in 0..4u8 {
        let mut b = [0u8; 32];
        b[0] = i + 1;
        let k = Key::from_bytes(b);
        keys.push(k.clone());
        dev.add_peer(Peer::new(k, None));
    }
    let h = dev.handle();
    assert_eq!(h.device.first_peer, Some(0));
    assert_eq!(h.device.last_peer, Some(3));
    assert_eq!(h.peers[0].peer.next_peer, Some(1));
    assert_eq!(h.peers[3].peer.next_peer, None);

    let back = Device::from_handle(&h);
    assert_eq!(back.peers().len(), 4);
    for i in 0..4usize {
        assert_eq!(back.peers()[i].public_key(), Some(&keys[i]));
    }
    assert_eq!(back, dev);
}

#[test]
fn device_name_ok_accepts_short_plain_names() {
    assert!(device_name_ok("wg0"));
    assert!(device_name_ok("wgtest0"));
    assert!(device_name_ok("a23456789012345"));
}

#[test]
fn device_name_ok_rejects_bad_names() {
    assert!(!device_name_ok(""));
    assert!(!device_name_ok("a234567890123456"));
    assert!(!device_name_ok("wg\u{0}0"));
    assert!(!device_name_ok("wg\u{e9}"));
}

#[test]
fn parse_device_names_splits_packed_list() {
    let names = parse_device_names(b"wg0\0wgtest0\0\0");
    assert_eq!(names.len(), 2);
    assert_eq!(names[0], b"wg0");
    assert_eq!(names[1], b"wgtest0");
}

#[test]
fn parse_device_names_of_empty_list() {
    assert_eq!(parse_device_names(b"").len(), 0);
    assert_eq!(parse_device_names(b"\0").len(), 0);
}

#[test]
fn parse_device_names_stops_at_empty_name() {
    let names = parse_device_names(b"abc\0\0def\0\0");
    assert_eq!(names.len(), 1);
    assert_eq!(names[0], b"abc");
}

#[test]
fn parse_device_names_without_final_terminator() {
    let names = parse_device_names(b"wg0\0wg1");
    assert_eq!(names.len(), 2);
    assert_eq!(names[0], b"wg0");
    assert_eq!(names[1], b"wg1");
}
