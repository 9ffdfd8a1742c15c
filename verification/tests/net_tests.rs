use rwg::{endpoint_to_sockaddr, read_ip4_from_in_addr, read_ip6_from_in6_addr,
    sockaddr_to_endpoint, write_ip4_to_in_addr, write_ip6_to_in6_addr, IpAddr, RawSockAddr};

#[test]
fn ip4_pack_known_value() {
    assert_eq!(write_ip4_to_in_addr(&[1, 2, 3, 4]), 0x0403_0201);
}

#[test]
fn ip4_unpack_known_value() {
    assert_eq!(read_ip4_from_in_addr(0x0403_0201), [1, 2, 3, 4]);
}

#[test]
fn ip6_pack_known_value() {
    let segments = [0x2001, 0x0db8, 0, 0, 0, 0, 0, 1];
    let bytes = write_ip6_to_in6_addr(&segments);
    assert_eq!(
        bytes,
        [0x20, 0x01, 0x0d, 0xb8, 0, 0, 0, 0, 0, 0, 0, 0, 0, 0, 0, 1]
    );
    assert_eq!(read_ip6_from_in6_addr(&bytes), segments);
}

#[test]
fn endpoint_v4_round_trip() {
    let endpoint = (IpAddr::V4([203, 0, 113, 5]), 51820u16);
    let saddr = endpoint_to_sockaddr(&endpoint);
    assert_eq!(saddr.family, 2);
    assert_eq!(saddr.port, 51820);
    assert_eq!(sockaddr_to_endpoint(&saddr), Some(endpoint));
}

#[test]
fn endpoint_v6_round_trip() {
    let endpoint = (IpAddr::V6([0xfe80, 0, 0, 0, 0x1ff, 0xfe23, 0x4567, 0x890a]), 1u16);
    let saddr = endpoint_to_sockaddr(&endpoint);
    assert_eq!(saddr.family, 10);
    assert_eq!(saddr.port, 1);
    assert_eq!(sockaddr_to_endpoint(&saddr), Some(endpoint));
}

#[test]
fn endpoint_port_extremes_round_trip() {
    for port in [0u16, 65535] {
        let endpoint = (IpAddr::V4([255, 255, 255, 255]), port);
        assert_eq!(sockaddr_to_endpoint(&endpoint_to_sockaddr(&endpoint)), Some(endpoint));
    }
}

#[test]
fn unset_family_decodes_to_no_endpoint() {
    let saddr = RawSockAddr { family: 0, port: 0, addr4: 0, addr6: [0; 16] };
    assert_eq!(sockaddr_to_endpoint(&saddr), None);
}
