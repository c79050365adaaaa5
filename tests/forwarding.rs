use packet_forwarder::addr::{IpNet, Ipv4Net, Ipv6Net, MacAddr};
use packet_forwarder::checksum::{calculate_ipv4_checksum, ChecksumError};
use packet_forwarder::config::Ifaces;
use packet_forwarder::frame::{is_it_external_packet, is_it_own_packet, is_packet_safe};
use packet_forwarder::inspect::{parse_packet, PacketInfo};
use packet_forwarder::rewrite::{
    external_to_internal_process_packet, internal_to_external_process_packet,
    modify_ext_to_int_packet, modify_int_to_ext_packet,
};

const EXT_MAC: [u8; 6] = [0xaa, 0xaa, 0xaa, 0xaa, 0xaa, 0x01];
const INT_MAC: [u8; 6] = [0xbb, 0xbb, 0xbb, 0xbb, 0xbb, 0x01];
const HOST_MAC: [u8; 6] = [0xcc, 0xcc, 0xcc, 0xcc, 0xcc, 0x05];
const GW_MAC: [u8; 6] = [0x02, 0x00, 0x00, 0x00, 0x00, 0xfe];

fn mac(octets: [u8; 6]) -> MacAddr {
    MacAddr { octets }
}

fn v4(a: [u8; 4], prefix: u8) -> Ipv4Net {
    Ipv4Net::new(a, prefix).unwrap()
}

fn bindings() -> Ifaces {
    Ifaces {
        ext_ip: v4([203, 0, 113, 5], 24),
        ext_mac: mac(EXT_MAC),
        int_ip: v4([10, 0, 0, 0], 24),
        int_mac: mac(INT_MAC),
    }
}

fn fold(mut sum: u32) -> u16 {
    while sum >> 16 != 0 {
        sum = (sum & 0xffff) + (sum >> 16);
    }
    sum as u16
}

fn word_sum(data: &[u8]) -> u32 {
    let mut sum = 0u32;
    let mut i = 0;
    while i + 1 < data.len() {
        sum += u16::from_be_bytes([data[i], data[i + 1]]) as u32;
        i += 2;
    }
    if data.len() % 2 == 1 {
        sum += (data[data.len() - 1] as u32) << 8;
    }
    sum
}

fn pseudo_sum(src: &[u8], dst: &[u8], proto: u8, len: usize) -> u32 {
    word_sum(src) + word_sum(dst) + proto as u32 + len as u32
}

/// Sum of the pseudo-header and of the segment as it stands, checksum
/// included; a correct checksum folds this to 0xffff.
fn transport_residual(frame: &[u8]) -> u16 {
    let seg = &frame[34..];
    fold(pseudo_sum(&frame[26..30], &frame[30..34], frame[23], seg.len()) + word_sum(seg))
}

fn ipv4_header(src: [u8; 4], dst: [u8; 4], proto: u8, ttl: u8, payload_len: usize) -> Vec<u8> {
    let total = (20 + payload_len) as u16;
    let mut h = vec![0x45, 0, (total >> 8) as u8, total as u8, 0x12, 0x34, 0x40, 0, ttl, proto, 0, 0];
    h.extend_from_slice(&src);
    h.extend_from_slice(&dst);
    let c = !fold(word_sum(&h));
    h[10] = (c >> 8) as u8;
    h[11] = c as u8;
    h
}

fn eth(dst: [u8; 6], src: [u8; 6], ethertype: u16, payload: &[u8]) -> Vec<u8> {
    let mut f = Vec::new();
    f.extend_from_slice(&dst);
    f.extend_from_slice(&src);
    f.extend_from_slice(&ethertype.to_be_bytes());
    f.extend_from_slice(payload);
    f
}

fn udp(sport: u16, dport: u16, data: &[u8]) -> Vec<u8> {
    let len = (8 + data.len()) as u16;
    let mut u = Vec::new();
    u.extend_from_slice(&sport.to_be_bytes());
    u.extend_from_slice(&dport.to_be_bytes());
    u.extend_from_slice(&len.to_be_bytes());
    u.extend_from_slice(&[0xde, 0xad]);
    u.extend_from_slice(data);
    u
}

fn tcp(sport: u16, dport: u16, data: &[u8]) -> Vec<u8> {
    let mut t = Vec::new();
    t.extend_from_slice(&sport.to_be_bytes());
    t.extend_from_slice(&dport.to_be_bytes());
    t.extend_from_slice(&[0, 0, 0, 1, 0, 0, 0, 0, 0x50, 0x18, 0xff, 0xff, 0x12, 0x34, 0, 0]);
    t.extend_from_slice(data);
    t
}

fn ipv4_frame(dst_mac: [u8; 6], src_mac: [u8; 6], src: [u8; 4], dst: [u8; 4], proto: u8, l4: &[u8]) -> Vec<u8> {
    let mut p = ipv4_header(src, dst, proto, 64, l4.len());
    p.extend_from_slice(l4);
    eth(dst_mac, src_mac, 0x0800, &p)
}

fn ipv6_frame(src_last: u8, dst_first: u8) -> Vec<u8> {
    let mut p = vec![0x60, 0, 0, 0, 0, 8, 17, 64];
    let mut src = [0u8; 16];
    src[0] = 0xfe;
    src[1] = 0x80;
    src[15] = src_last;
    let mut dst = [0u8; 16];
    dst[0] = dst_first;
    dst[15] = 2;
    p.extend_from_slice(&src);
    p.extend_from_slice(&dst);
    p.extend_from_slice(&udp(1, 2, &[]));
    eth(EXT_MAC, GW_MAC, 0x86dd, &p)
}

#[test]
fn test_is_it_own_packet_ipv4() {
    let src_ips = vec![IpNet::V4(v4([192, 168, 1, 1], 24))];
    let mut ethernet_buffer = [0u8; 42];
    ethernet_buffer[12] = 0x08;
    ethernet_buffer[13] = 0x00;
    let mut ipv4_buffer = [0u8; 28];
    ipv4_buffer[12..16].copy_from_slice(&[192, 168, 1, 1]);
    ipv4_buffer[16..20].copy_from_slice(&[192, 168, 1, 2]);
    ipv4_buffer[9] = 17;
    ethernet_buffer[14..].copy_from_slice(&ipv4_buffer);
    assert!(is_it_own_packet(&ethernet_buffer, &src_ips));
}

#[test]
fn test_is_it_own_packet_ipv6() {
    let mut fe80_1 = [0u8; 16];
    fe80_1[0] = 0xfe;
    fe80_1[1] = 0x80;
    fe80_1[15] = 1;
    let src_ips = vec![IpNet::V6(Ipv6Net::new(fe80_1, 64).unwrap())];
    let mut ethernet_buffer = [0u8; 62];
    ethernet_buffer[12] = 0x86;
    ethernet_buffer[13] = 0xdd;
    let mut ipv6_buffer = [0u8; 48];
    ipv6_buffer[8..24].copy_from_slice(&fe80_1);
    let mut fe80_2 = fe80_1;
    fe80_2[15] = 2;
    ipv6_buffer[24..40].copy_from_slice(&fe80_2);
    ipv6_buffer[6] = 17;
    ethernet_buffer[14..].copy_from_slice(&ipv6_buffer);
    assert!(is_it_own_packet(&ethernet_buffer, &src_ips));
}

#[test]
fn own_packet_ignores_prefix_and_version() {
    let f = ipv4_frame(EXT_MAC, GW_MAC, [192, 168, 1, 7], [192, 168, 1, 2], 17, &udp(1, 2, &[]));
    assert!(!is_it_own_packet(&f, &vec![IpNet::V4(v4([192, 168, 1, 1], 24))]));
    assert!(is_it_own_packet(&f, &vec![IpNet::V4(v4([192, 168, 1, 7], 32))]));
    let arp = eth(EXT_MAC, GW_MAC, 0x0806, &[0u8; 28]);
    assert!(!is_it_own_packet(&arp, &vec![IpNet::V4(v4([0, 0, 0, 0], 0))]));
    assert!(!is_it_own_packet(&[0u8; 10], &vec![]));
}

#[test]
fn ipv4_header_checksum_known_value() {
    let h = [
        0x45, 0x00, 0x00, 0x73, 0x00, 0x00, 0x40, 0x00, 0x40, 0x11, 0x00, 0x00, 0xc0, 0xa8, 0x00,
        0x01, 0xc0, 0xa8, 0x00, 0xc7,
    ];
    assert_eq!(calculate_ipv4_checksum(&h), Ok(0xb861));
}

#[test]
fn ipv4_header_checksum_reads_only_twenty_bytes() {
    let mut h = vec![0xffu8; 20];
    assert_eq!(calculate_ipv4_checksum(&h), Ok(0));
    h.extend_from_slice(&[1, 2, 3, 4]);
    assert_eq!(calculate_ipv4_checksum(&h), Ok(0));
    assert_eq!(calculate_ipv4_checksum(&[0u8; 20]), Ok(0xffff));
}

#[test]
fn ipv4_header_checksum_too_short() {
    assert_eq!(calculate_ipv4_checksum(&[0x45u8; 19]), Err(ChecksumError::HeaderTooShort));
    assert_eq!(calculate_ipv4_checksum(&[]), Err(ChecksumError::HeaderTooShort));
}

#[test]
fn ipv4_header_checksum_embedded_validates_to_zero() {
    let mut h = ipv4_header([10, 1, 2, 3], [172, 16, 254, 1], 6, 17, 1400);
    h[10] = 0;
    h[11] = 0;
    let c = calculate_ipv4_checksum(&h).unwrap();
    h[10..12].copy_from_slice(&c.to_be_bytes());
    assert_eq!(calculate_ipv4_checksum(&h), Ok(0));
}

#[test]
fn scenario_udp_external_to_internal() {
    let mut f = ipv4_frame(EXT_MAC, GW_MAC, [198, 51, 100, 7], [203, 0, 113, 5], 17, &udp(5353, 4000, b"hello"));
    let src_ips = vec![IpNet::V4(v4([203, 0, 113, 5], 24))];
    let send = external_to_internal_process_packet(&mut f, &src_ips, mac(INT_MAC), mac(HOST_MAC), v4([10, 0, 0, 5], 24));
    assert!(send);
    assert_eq!(&f[0..6], &HOST_MAC);
    assert_eq!(&f[6..12], &INT_MAC);
    assert_eq!(&f[26..30], &[198, 51, 100, 7]);
    assert_eq!(&f[30..34], &[10, 0, 0, 5]);
    assert_eq!(f[22], 64);
    assert_ne!(&f[40..42], &[0xde, 0xad]);
    assert_eq!(transport_residual(&f), 0xffff);
    assert_eq!(calculate_ipv4_checksum(&f[14..]), Ok(0));
}

#[test]
fn scenario_tcp_internal_to_external() {
    let mut f = ipv4_frame(GW_MAC, HOST_MAC, [10, 0, 0, 5], [8, 8, 8, 8], 6, &tcp(443, 51000, b"data!"));
    let send = internal_to_external_process_packet(&mut f, &bindings());
    assert!(send);
    assert_eq!(&f[0..6], &GW_MAC);
    assert_eq!(&f[6..12], &EXT_MAC);
    assert_eq!(&f[26..30], &[203, 0, 113, 5]);
    assert_eq!(&f[30..34], &[8, 8, 8, 8]);
    assert_eq!(&f[34..36], &443u16.to_be_bytes());
    assert_eq!(&f[36..38], &51000u16.to_be_bytes());
    assert_eq!(transport_residual(&f), 0xffff);
    assert_eq!(calculate_ipv4_checksum(&f[14..]), Ok(0));
}

#[test]
fn scenario_own_traffic_dropped() {
    let b = bindings();
    let original = ipv4_frame(EXT_MAC, GW_MAC, [203, 0, 113, 5], [10, 0, 0, 5], 17, &udp(1, 2, b"x"));
    let mut f = original.clone();
    let send = external_to_internal_process_packet(&mut f, &vec![IpNet::V4(b.ext_ip)], b.int_mac, mac(HOST_MAC), v4([10, 0, 0, 5], 24));
    assert!(!send);
    assert_eq!(f, original);
}

#[test]
fn scenario_icmp_dropped_both_ways() {
    let icmp = [8u8, 0, 0xf7, 0xff, 0, 0, 0, 0];
    let mut f = ipv4_frame(EXT_MAC, GW_MAC, [198, 51, 100, 7], [203, 0, 113, 5], 1, &icmp);
    assert!(!external_to_internal_process_packet(&mut f, &vec![], mac(INT_MAC), mac(HOST_MAC), v4([10, 0, 0, 5], 24)));
    let mut g = ipv4_frame(GW_MAC, HOST_MAC, [10, 0, 0, 5], [8, 8, 8, 8], 1, &icmp);
    assert!(!internal_to_external_process_packet(&mut g, &bindings()));
}

#[test]
fn ipv6_dropped_both_ways() {
    let original = ipv6_frame(9, 0x20);
    let mut f = original.clone();
    assert!(!external_to_internal_process_packet(&mut f, &vec![], mac(INT_MAC), mac(HOST_MAC), v4([10, 0, 0, 5], 24)));
    assert_eq!(f, original);
    assert!(!internal_to_external_process_packet(&mut f, &bindings()));
    assert_eq!(f, original);
}

#[test]
fn ipv6_external_bound_rules() {
    let mut net = [0u8; 16];
    net[0] = 0xfe;
    net[1] = 0x80;
    let internal = IpNet::V6(Ipv6Net::new(net, 64).unwrap());
    let mut inside = ipv6_frame(1, 0xfe);
    inside[38 + 1] = 0x80;
    assert!(!is_it_external_packet(&inside, &internal));
    assert!(is_it_external_packet(&ipv6_frame(1, 0xff), &internal));
    assert!(is_it_external_packet(&ipv6_frame(1, 0x20), &internal));
    assert!(is_it_external_packet(&ipv6_frame(1, 0x20), &IpNet::V4(v4([10, 0, 0, 0], 24))));
}

#[test]
fn internal_destination_not_forwarded() {
    let original = ipv4_frame(HOST_MAC, GW_MAC, [10, 0, 0, 5], [10, 0, 0, 7], 17, &udp(1, 2, b""));
    let internal = IpNet::V4(v4([10, 0, 0, 0], 24));
    assert!(!is_it_external_packet(&original, &internal));
    let mut f = original.clone();
    assert!(!internal_to_external_process_packet(&mut f, &bindings()));
    assert_eq!(f, original);
}

#[test]
fn broadcast_and_inside_multicast_are_external_bound() {
    let internal = IpNet::V4(v4([10, 0, 0, 0], 24));
    let bcast = ipv4_frame(HOST_MAC, GW_MAC, [10, 0, 0, 5], [255, 255, 255, 255], 17, &udp(68, 67, b""));
    assert!(is_it_external_packet(&bcast, &internal));
    let mcast = ipv4_frame(HOST_MAC, GW_MAC, [10, 0, 0, 5], [224, 0, 0, 251], 17, &udp(5353, 5353, b""));
    assert!(is_it_external_packet(&mcast, &internal));
    let foreign_mcast = ipv4_frame(HOST_MAC, GW_MAC, [192, 168, 9, 9], [224, 0, 0, 251], 17, &udp(5353, 5353, b""));
    assert!(!is_it_external_packet(&foreign_mcast, &IpNet::V4(v4([224, 0, 0, 0], 4))));
    let arp = eth(HOST_MAC, GW_MAC, 0x0806, &[0u8; 28]);
    assert!(!is_it_external_packet(&arp, &internal));
    let whole = IpNet::V4(v4([0, 0, 0, 0], 0));
    assert!(!is_it_external_packet(&ipv4_frame(HOST_MAC, GW_MAC, [1, 1, 1, 1], [9, 9, 9, 9], 6, &tcp(1, 2, b"")), &whole));
}

#[test]
fn external_to_internal_multicast_sets_ttl_one() {
    let mut f = ipv4_frame(EXT_MAC, GW_MAC, [198, 51, 100, 7], [203, 0, 113, 5], 17, &udp(5353, 5353, b"q"));
    assert!(modify_ext_to_int_packet(&mut f, mac(INT_MAC), mac(HOST_MAC), v4([239, 1, 2, 3], 32)));
    assert_eq!(f[22], 1);
    assert_eq!(&f[30..34], &[239, 1, 2, 3]);
    assert_eq!(transport_residual(&f), 0xffff);
    assert_eq!(calculate_ipv4_checksum(&f[14..]), Ok(0));
}

#[test]
fn external_to_internal_tcp_checksums_hold() {
    let mut f = ipv4_frame(EXT_MAC, GW_MAC, [93, 184, 216, 34], [203, 0, 113, 5], 6, &tcp(80, 40000, b"odd"));
    assert!(modify_ext_to_int_packet(&mut f, mac(INT_MAC), mac(HOST_MAC), v4([10, 0, 0, 5], 24)));
    assert_eq!(&f[30..34], &[10, 0, 0, 5]);
    assert_eq!(transport_residual(&f), 0xffff);
    assert_eq!(calculate_ipv4_checksum(&f[14..]), Ok(0));
}

#[test]
fn rewrite_refuses_other_ethertypes_and_protocols() {
    let mut arp = eth(EXT_MAC, GW_MAC, 0x0806, &[0u8; 28]);
    assert!(!modify_ext_to_int_packet(&mut arp, mac(INT_MAC), mac(HOST_MAC), v4([10, 0, 0, 5], 24)));
    assert_eq!(&arp[0..6], &HOST_MAC);
    let mut gre = ipv4_frame(GW_MAC, HOST_MAC, [10, 0, 0, 5], [8, 8, 8, 8], 47, &[0u8; 8]);
    assert!(!modify_int_to_ext_packet(&mut gre, &mac(EXT_MAC), &v4([203, 0, 113, 5], 24)));
    let mut short = vec![0u8; 13];
    assert!(!modify_int_to_ext_packet(&mut short, &mac(EXT_MAC), &v4([203, 0, 113, 5], 24)));
    assert_eq!(short, vec![0u8; 13]);
}

#[test]
fn rewrite_of_truncated_ipv4_is_dropped() {
    let mut f = eth(GW_MAC, HOST_MAC, 0x0800, &[0x45u8; 10]);
    assert!(!modify_int_to_ext_packet(&mut f, &mac(EXT_MAC), &v4([203, 0, 113, 5], 24)));
    assert_eq!(&f[6..12], &EXT_MAC);
    assert_eq!(&f[14..], &[0x45u8; 10]);
    let mut g = eth(EXT_MAC, GW_MAC, 0x0800, &[0x45u8; 19]);
    assert!(!modify_ext_to_int_packet(&mut g, mac(INT_MAC), mac(HOST_MAC), v4([10, 0, 0, 5], 24)));
    let mut h = eth(EXT_MAC, GW_MAC, 0x0800, &[0x45u8; 19]);
    assert!(!external_to_internal_process_packet(&mut h, &vec![], mac(INT_MAC), mac(HOST_MAC), v4([10, 0, 0, 5], 24)));
    let mut k = eth(GW_MAC, HOST_MAC, 0x0800, &[0x45u8; 19]);
    assert!(!internal_to_external_process_packet(&mut k, &bindings()));
}

#[test]
fn short_udp_payload_keeps_transport_bytes() {
    let mut f = ipv4_frame(GW_MAC, HOST_MAC, [10, 0, 0, 5], [8, 8, 8, 8], 17, &[1, 2, 3, 4]);
    assert!(modify_int_to_ext_packet(&mut f, &mac(EXT_MAC), &v4([203, 0, 113, 5], 24)));
    assert_eq!(&f[34..], &[1, 2, 3, 4]);
    assert_eq!(calculate_ipv4_checksum(&f[14..]), Ok(0));
}

#[test]
fn safety_hook_passes_everything() {
    assert!(is_packet_safe(&[]));
    assert!(is_packet_safe(&ipv6_frame(1, 2)));
}

#[test]
fn parse_tcp_udp_icmp() {
    let t = ipv4_frame(GW_MAC, HOST_MAC, [10, 0, 0, 5], [8, 8, 8, 8], 6, &tcp(443, 51000, b""));
    assert_eq!(
        parse_packet(&t),
        PacketInfo::Tcp { src_ip: [10, 0, 0, 5], src_port: 443, dst_ip: [8, 8, 8, 8], dst_port: 51000 }
    );
    let u = ipv4_frame(GW_MAC, HOST_MAC, [10, 0, 0, 5], [8, 8, 4, 4], 17, &udp(53000, 53, b""));
    assert_eq!(
        parse_packet(&u),
        PacketInfo::Udp {
            src_mac: mac(HOST_MAC),
            src_ip: [10, 0, 0, 5],
            src_port: 53000,
            dst_mac: mac(GW_MAC),
            dst_ip: [8, 8, 4, 4],
            dst_port: 53
        }
    );
    let i = ipv4_frame(GW_MAC, HOST_MAC, [10, 0, 0, 5], [1, 1, 1, 1], 1, &[8, 0, 0, 0]);
    assert_eq!(parse_packet(&i), PacketInfo::Icmp { src_ip: [10, 0, 0, 5], dst_ip: [1, 1, 1, 1], icmp_type: 8 });
    let short_tcp = ipv4_frame(GW_MAC, HOST_MAC, [10, 0, 0, 5], [1, 1, 1, 1], 6, &[0u8; 10]);
    assert_eq!(parse_packet(&short_tcp), PacketInfo::Undetermined);
    let other = ipv4_frame(GW_MAC, HOST_MAC, [10, 0, 0, 5], [1, 1, 1, 1], 47, &[]);
    assert_eq!(parse_packet(&other), PacketInfo::OtherIpv4 { src_ip: [10, 0, 0, 5], dst_ip: [1, 1, 1, 1], protocol: 47 });
}

#[test]
fn parse_arp_and_others() {
    let mut arp = vec![0, 1, 8, 0, 6, 4, 0, 1];
    arp.extend_from_slice(&GW_MAC);
    arp.extend_from_slice(&[10, 0, 0, 1]);
    arp.extend_from_slice(&[0u8; 6]);
    arp.extend_from_slice(&[10, 0, 0, 5]);
    let f = eth([0xff; 6], GW_MAC, 0x0806, &arp);
    assert_eq!(
        parse_packet(&f),
        PacketInfo::Arp {
            sender_ip: [10, 0, 0, 1],
            sender_mac: mac(GW_MAC),
            target_ip: [10, 0, 0, 5],
            target_mac: MacAddr::zero()
        }
    );
    assert_eq!(parse_packet(&ipv6_frame(1, 2)), PacketInfo::OtherEthertype { ethertype: 0x86dd });
    assert_eq!(parse_packet(&eth(GW_MAC, HOST_MAC, 0x0800, &[0u8; 19])), PacketInfo::MalformedIpv4);
    assert_eq!(parse_packet(&eth(GW_MAC, HOST_MAC, 0x0806, &[0u8; 27])), PacketInfo::Undetermined);
    assert_eq!(parse_packet(&[0u8; 5]), PacketInfo::Undetermined);
}
