use packet_forwarder::addr::{IpNet, Ipv4Net, Ipv6Net, MacAddr};
use packet_forwarder::config::{select_ip, select_ip_test, Iface, IfaceRegistry, SelectIpError};

fn v4(a: u8, b: u8, c: u8, d: u8, prefix: u8) -> Ipv4Net {
    Ipv4Net::new([a, b, c, d], prefix).unwrap()
}

fn fe80(last: u8, prefix: u8) -> Ipv6Net {
    let mut addr = [0u8; 16];
    addr[0] = 0xfe;
    addr[1] = 0x80;
    addr[15] = last;
    Ipv6Net::new(addr, prefix).unwrap()
}

fn iface(name: &str, ips: Vec<IpNet>, mac: Option<MacAddr>) -> Iface {
    Iface { name: name.to_string(), ips, mac }
}

#[test]
fn test_select_ip_with_single_ipv4() {
    let iface = iface("eth0", vec![IpNet::V4(v4(192, 168, 1, 1, 24))], None);
    let iface_ip = None;
    let result = select_ip_test(&iface, iface_ip);
    assert!(result.is_ok());
    assert_eq!(result.unwrap(), v4(192, 168, 1, 1, 24));
}

#[test]
fn test_select_ip_with_multiple_ipv4() {
    let iface = iface(
        "eth0",
        vec![IpNet::V4(v4(192, 168, 1, 1, 24)), IpNet::V4(v4(192, 168, 1, 2, 24))],
        None,
    );
    let iface_ip = Some(v4(192, 168, 1, 1, 24));
    let result = select_ip_test(&iface, iface_ip);
    assert!(result.is_ok());
    assert_eq!(result.unwrap(), v4(192, 168, 1, 1, 24));
}

#[test]
fn test_select_ip_with_no_ipv4() {
    let iface = iface("eth0", vec![IpNet::V6(fe80(1, 64))], None);
    let result = select_ip_test(&iface, None);
    assert!(result.is_err());
    assert_eq!(
        result.unwrap_err().message(),
        "No IPv4 address found for interface eth0".to_string()
    );
}

#[test]
fn test_select_ip_with_non_matching_iface_ip() {
    let iface = iface(
        "eth0",
        vec![IpNet::V4(v4(192, 168, 1, 1, 24)), IpNet::V4(v4(192, 168, 1, 2, 24))],
        None,
    );
    let iface_ip = Some(v4(192, 168, 1, 3, 24));
    let result = select_ip_test(&iface, iface_ip);
    assert!(result.is_err());
    assert_eq!(
        result.unwrap_err().message(),
        "Provided IP 192.168.1.3/24 does not match any IPs in interface eth0"
    );
}

#[test]
fn select_ip_skips_ipv6_and_takes_first_ipv4() {
    let iface = iface(
        "eth1",
        vec![
            IpNet::V6(fe80(1, 64)),
            IpNet::V4(v4(10, 0, 0, 1, 24)),
            IpNet::V4(v4(10, 0, 1, 1, 24)),
        ],
        None,
    );
    assert_eq!(select_ip(&iface, None), Ok(v4(10, 0, 0, 1, 24)));
}

#[test]
fn select_ip_ignores_request_with_single_ipv4() {
    let iface = iface("eth1", vec![IpNet::V4(v4(10, 0, 0, 1, 24))], None);
    assert_eq!(select_ip(&iface, Some(v4(172, 16, 0, 1, 16))), Ok(v4(10, 0, 0, 1, 24)));
}

#[test]
fn select_ip_keeps_requested_prefix() {
    let iface = iface(
        "eth0",
        vec![IpNet::V4(v4(192, 168, 1, 1, 24)), IpNet::V4(v4(192, 168, 1, 2, 24))],
        None,
    );
    assert_eq!(select_ip(&iface, Some(v4(192, 168, 1, 2, 16))), Ok(v4(192, 168, 1, 2, 16)));
}

#[test]
fn select_ip_empty_interface_fails() {
    let iface = iface("lo9", vec![], None);
    assert_eq!(
        select_ip(&iface, None),
        Err(SelectIpError::NoIpv4Address { iface: "lo9".to_string() })
    );
}

#[test]
fn mismatch_error_names_request_and_interface() {
    let iface = iface(
        "wan",
        vec![IpNet::V4(v4(1, 2, 3, 4, 8)), IpNet::V4(v4(1, 2, 3, 5, 8))],
        None,
    );
    let err = select_ip(&iface, Some(v4(255, 0, 10, 7, 32))).unwrap_err();
    assert_eq!(
        err,
        SelectIpError::AddressMismatch { requested: v4(255, 0, 10, 7, 32), iface: "wan".to_string() }
    );
    assert_eq!(err.message(), "Provided IP 255.0.10.7/32 does not match any IPs in interface wan");
}

#[test]
fn ipv4_net_rejects_long_prefix() {
    assert!(Ipv4Net::new([1, 2, 3, 4], 33).is_none());
    assert!(Ipv6Net::new([0; 16], 129).is_none());
}

#[test]
fn registry_starts_unbound() {
    let reg = IfaceRegistry::new();
    let b = reg.get_ifaces();
    assert_eq!(b.ext_ip, v4(0, 0, 0, 0, 0));
    assert_eq!(b.int_ip, v4(0, 0, 0, 0, 0));
    assert_eq!(b.ext_mac, MacAddr::zero());
    assert_eq!(b.int_mac, MacAddr::zero());
}

#[test]
fn registry_assigns_both_sides() {
    let mut reg = IfaceRegistry::new();
    let ext_mac = MacAddr { octets: [0xaa, 0xaa, 0xaa, 0xaa, 0xaa, 0x01] };
    let ext = iface("eth0", vec![IpNet::V4(v4(203, 0, 113, 5, 24))], Some(ext_mac));
    let int = iface("eth1", vec![IpNet::V4(v4(10, 0, 0, 0, 24))], None);
    assert_eq!(reg.assign_ifaces(&ext, &int, None, None), Ok(()));
    let b = reg.get_ifaces();
    assert_eq!(b.ext_ip, v4(203, 0, 113, 5, 24));
    assert_eq!(b.ext_mac, ext_mac);
    assert_eq!(b.int_ip, v4(10, 0, 0, 0, 24));
    assert_eq!(b.int_mac, MacAddr::zero());
}

#[test]
fn registry_keeps_binding_when_one_side_fails() {
    let mut reg = IfaceRegistry::new();
    let ext = iface("eth0", vec![IpNet::V4(v4(203, 0, 113, 5, 24))], None);
    let int = iface("eth1", vec![IpNet::V4(v4(10, 0, 0, 0, 24))], None);
    reg.assign_ifaces(&ext, &int, None, None).unwrap();
    let before = reg.get_ifaces();
    let bad = iface("eth2", vec![IpNet::V6(fe80(2, 64))], None);
    let err = reg.assign_ifaces(&ext, &bad, None, None).unwrap_err();
    assert_eq!(err.message(), "No IPv4 address found for interface eth2");
    assert_eq!(reg.get_ifaces(), before);
    let err = reg.assign_ifaces(&bad, &int, None, None).unwrap_err();
    assert_eq!(err, SelectIpError::NoIpv4Address { iface: "eth2".to_string() });
    assert_eq!(reg.get_ifaces(), before);
}
