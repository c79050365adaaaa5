//! A summary of a frame's layer-3 and layer-4 fields, for logging. It never
//! fails and never changes the frame.
use vstd::prelude::*;
use crate::addr::{ipv4_at, MacAddr};
use crate::bytes::{be16, read_be16};
use crate::frame::{
    ipv4_dst, ipv4_src, transport_bounds, transport_bounds_of, ETHERTYPE_ARP, ETHERTYPE_IPV4, ETH_HEADER_LEN,
    IP_PROTO_ICMP, IP_PROTO_TCP, IP_PROTO_UDP,
};

verus! {

broadcast use vstd::array::group_array_axioms;

/// What a frame carries, as far as it can be read.
#[derive(Debug, Clone, Copy, PartialEq, Eq)]
pub enum PacketInfo {
    /// A TCP segment over IPv4.
    Tcp { src_ip: [u8; 4], src_port: u16, dst_ip: [u8; 4], dst_port: u16 },
    /// A UDP datagram over IPv4.
    Udp {
        src_mac: MacAddr,
        src_ip: [u8; 4],
        src_port: u16,
        dst_mac: MacAddr,
        dst_ip: [u8; 4],
        dst_port: u16,
    },
    /// An ICMP message over IPv4.
    Icmp { src_ip: [u8; 4], dst_ip: [u8; 4], icmp_type: u8 },
    /// An IPv4 packet of another protocol.
    OtherIpv4 { src_ip: [u8; 4], dst_ip: [u8; 4], protocol: u8 },
    /// An IPv4 ethertype with too few bytes for an IPv4 header.
    MalformedIpv4,
    /// An ARP message.
    Arp { sender_ip: [u8; 4], sender_mac: MacAddr, target_ip: [u8; 4], target_mac: MacAddr },
    /// A frame of an ethertype that is not looked into.
    OtherEthertype { ethertype: u16 },
    /// A frame whose details could not be read.
    Undetermined,
}

/// Whether `r` is the summary of the IPv4 frame `f`, whose payload is of
/// protocol `p` and lies at `s .. e`.
pub open spec fn describes_ipv4(r: PacketInfo, f: Seq<u8>, p: u8, s: int, e: int) -> bool {
    if p == IP_PROTO_TCP && e - s >= 20 {
        match r {
            PacketInfo::Tcp { src_ip, src_port, dst_ip, dst_port } => src_ip@ == ipv4_src(f)
                && dst_ip@ == ipv4_dst(f) && src_port == be16(f, s) && dst_port == be16(f, s + 2),
            _ => false,
        }
    } else if p == IP_PROTO_UDP && e - s >= 8 {
        match r {
            PacketInfo::Udp { src_mac, src_ip, src_port, dst_mac, dst_ip, dst_port } =>
                src_mac.octets@ == f.subrange(6, 12) && dst_mac.octets@ == f.subrange(0, 6)
                    && src_ip@ == ipv4_src(f) && dst_ip@ == ipv4_dst(f) && src_port == be16(f, s)
                    && dst_port == be16(f, s + 2),
            _ => false,
        }
    } else if p == IP_PROTO_ICMP && e - s >= 4 {
        match r {
            PacketInfo::Icmp { src_ip, dst_ip, icmp_type } => src_ip@ == ipv4_src(f) && dst_ip@
                == ipv4_dst(f) && icmp_type == f[s],
            _ => false,
        }
    } else if p == IP_PROTO_TCP || p == IP_PROTO_UDP || p == IP_PROTO_ICMP {
        r == PacketInfo::Undetermined
    } else {
        match r {
            PacketInfo::OtherIpv4 { src_ip, dst_ip, protocol } => src_ip@ == ipv4_src(f) && dst_ip@
                == ipv4_dst(f) && protocol == p,
            _ => false,
        }
    }
}

/// Whether `r` is the summary of the frame `f`.
pub open spec fn describes(r: PacketInfo, f: Seq<u8>) -> bool {
    if f.len() < ETH_HEADER_LEN {
        r == PacketInfo::Undetermined
    } else if be16(f, 12) == ETHERTYPE_IPV4 {
        if f.len() < 34 {
            r == PacketInfo::MalformedIpv4
        } else {
            describes_ipv4(r, f, f[23], transport_bounds(f).0, transport_bounds(f).1)
        }
    } else if be16(f, 12) == ETHERTYPE_ARP {
        if f.len() >= 42 {
            match r {
                PacketInfo::Arp { sender_ip, sender_mac, target_ip, target_mac } =>
                    sender_mac.octets@ == f.subrange(22, 28) && sender_ip@ == f.subrange(28, 32)
                        && target_mac.octets@ == f.subrange(32, 38) && target_ip@ == f.subrange(
                    38,
                    42,
                ),
                _ => false,
            }
        } else {
            r == PacketInfo::Undetermined
        }
    } else {
        r == PacketInfo::OtherEthertype { ethertype: be16(f, 12) as u16 }
    }
}

fn mac_at(f: &[u8], off: usize) -> (r: MacAddr)
    requires
        off + 6 <= f@.len(),
    ensures
        r.octets@ == f@.subrange(off as int, off + 6),
{
    let octets = [f[off], f[off + 1], f[off + 2], f[off + 3], f[off + 4], f[off + 5]];
    assert(octets@ =~= f@.subrange(off as int, off + 6));
    MacAddr { octets }
}

/// Summarises the protocol, addresses and ports of a frame.
pub fn parse_packet(f: &[u8]) -> (r: PacketInfo)
    ensures
        describes(r, f@),
{
    if f.len() < ETH_HEADER_LEN {
        return PacketInfo::Undetermined;
    }
    let ethertype = read_be16(f, 12);
    if ethertype == ETHERTYPE_IPV4 {
        if f.len() < 34 {
            return PacketInfo::MalformedIpv4;
        }
        let src_ip = ipv4_at(f, 26);
        let dst_ip = ipv4_at(f, 30);
        let protocol = f[23];
        let (s, e) = transport_bounds_of(f);
        if protocol == IP_PROTO_TCP {
            if e - s >= 20 {
                let src_port = read_be16(f, s);
                let dst_port = read_be16(f, s + 2);
                return PacketInfo::Tcp { src_ip, src_port, dst_ip, dst_port };
            }
        } else if protocol == IP_PROTO_UDP {
            if e - s >= 8 {
                let src_port = read_be16(f, s);
                let dst_port = read_be16(f, s + 2);
                let src_mac = mac_at(f, 6);
                let dst_mac = mac_at(f, 0);
                return PacketInfo::Udp { src_mac, src_ip, src_port, dst_mac, dst_ip, dst_port };
            }
        } else if protocol == IP_PROTO_ICMP {
            if e - s >= 4 {
                return PacketInfo::Icmp { src_ip, dst_ip, icmp_type: f[s] };
            }
        } else {
            return PacketInfo::OtherIpv4 { src_ip, dst_ip, protocol };
        }
        PacketInfo::Undetermined
    } else if ethertype == ETHERTYPE_ARP {
        if f.len() >= 42 {
            PacketInfo::Arp {
                sender_mac: mac_at(f, 22),
                sender_ip: ipv4_at(f, 28),
                target_mac: mac_at(f, 32),
                target_ip: ipv4_at(f, 38),
            }
        } else {
            PacketInfo::Undetermined
        }
    } else {
        PacketInfo::OtherEthertype { ethertype }
    }
}

} // verus!
