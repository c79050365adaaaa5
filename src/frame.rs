//! Where the fields of an Ethernet / IPv4 / IPv6 frame lie, and the
//! predicates that decide whether a frame may be forwarded.
use vstd::prelude::*;
use crate::addr::{
    bytes_equal, is_v4_broadcast, is_v4_multicast, is_v6_multicast, net_contains_v4,
    net_contains_v6, bytes_at, IpNet,
};
use crate::bytes::{be16, read_be16};

verus! {

broadcast use vstd::array::group_array_axioms;

/// Length of the Ethernet header: two MAC addresses and the ethertype.
pub const ETH_HEADER_LEN: usize = 14;

/// Offset of the IPv4 or IPv6 header inside a frame.
pub const IP_OFFSET: usize = 14;

/// Ethertype of IPv4.
pub const ETHERTYPE_IPV4: u16 = 0x0800;

/// Ethertype of ARP.
pub const ETHERTYPE_ARP: u16 = 0x0806;

/// Ethertype of IPv6.
pub const ETHERTYPE_IPV6: u16 = 0x86DD;

/// IPv4 protocol number of ICMP.
pub const IP_PROTO_ICMP: u8 = 1;

/// IPv4 protocol number of TCP.
pub const IP_PROTO_TCP: u8 = 6;

/// IPv4 protocol number of UDP.
pub const IP_PROTO_UDP: u8 = 17;

/// Whether `f` holds an Ethernet header whose ethertype is `t`.
pub open spec fn ethertype_is(f: Seq<u8>, t: nat) -> bool {
    f.len() >= ETH_HEADER_LEN && be16(f, 12) == t
}

/// Whether `f` is an Ethernet frame that carries IPv4.
pub open spec fn is_ipv4_frame(f: Seq<u8>) -> bool {
    ethertype_is(f, ETHERTYPE_IPV4 as nat)
}

/// Whether `f` is an Ethernet frame that carries IPv6.
pub open spec fn is_ipv6_frame(f: Seq<u8>) -> bool {
    ethertype_is(f, ETHERTYPE_IPV6 as nat)
}

/// Whether `f` carries IPv4 and is long enough for a fixed IPv4 header.
pub open spec fn has_ipv4_header(f: Seq<u8>) -> bool {
    is_ipv4_frame(f) && f.len() >= 34
}

/// Whether `f` carries IPv6 and is long enough for the IPv6 header.
pub open spec fn has_ipv6_header(f: Seq<u8>) -> bool {
    is_ipv6_frame(f) && f.len() >= 54
}

/// The IPv4 source address of a frame.
pub open spec fn ipv4_src(f: Seq<u8>) -> Seq<u8> {
    f.subrange(26, 30)
}

/// The IPv4 destination address of a frame.
pub open spec fn ipv4_dst(f: Seq<u8>) -> Seq<u8> {
    f.subrange(30, 34)
}

/// The IPv6 source address of a frame.
pub open spec fn ipv6_src(f: Seq<u8>) -> Seq<u8> {
    f.subrange(22, 38)
}

/// The IPv6 destination address of a frame.
pub open spec fn ipv6_dst(f: Seq<u8>) -> Seq<u8> {
    f.subrange(38, 54)
}

/// The IPv4 header length in bytes, as its IHL field gives it.
pub open spec fn ipv4_ihl_bytes(f: Seq<u8>) -> int {
    (f[14] % 16) * 4
}

/// The IPv4 total length field.
pub open spec fn ipv4_total_len(f: Seq<u8>) -> int {
    be16(f, 16) as int
}

/// Start and end, in the frame, of the IPv4 payload: it starts after the
/// header (never before its twentieth byte) and runs for the total length
/// less the header length, cut off at the end of the frame.
pub open spec fn transport_bounds(f: Seq<u8>) -> (int, int) {
    let ihl = ipv4_ihl_bytes(f);
    let start = if ihl < 20 { 20 } else { ihl };
    let len = if ipv4_total_len(f) >= ihl { ipv4_total_len(f) - ihl } else { 0 };
    let avail = f.len() - IP_OFFSET;
    if avail <= start {
        (f.len() as int, f.len() as int)
    } else {
        (IP_OFFSET + start, IP_OFFSET + if start + len < avail { start + len } else { avail })
    }
}

/// Whether `e` is an IPv4 entry whose address is `a`.
pub open spec fn is_v4_entry_for(e: IpNet, a: Seq<u8>) -> bool {
    match e {
        IpNet::V4(n) => n.addr@ == a,
        IpNet::V6(_) => false,
    }
}

/// Whether `e` is an IPv6 entry whose address is `a`.
pub open spec fn is_v6_entry_for(e: IpNet, a: Seq<u8>) -> bool {
    match e {
        IpNet::V4(_) => false,
        IpNet::V6(n) => n.addr@ == a,
    }
}

/// Whether the frame's source address is the address of an entry of
/// `src_ips` of the same IP version; prefix lengths play no part.
pub open spec fn is_own_traffic(f: Seq<u8>, src_ips: Seq<IpNet>) -> bool {
    if has_ipv4_header(f) {
        exists|i: int| 0 <= i < src_ips.len() && is_v4_entry_for(#[trigger] src_ips[i], ipv4_src(f))
    } else if has_ipv6_header(f) {
        exists|i: int| 0 <= i < src_ips.len() && is_v6_entry_for(#[trigger] src_ips[i], ipv6_src(f))
    } else {
        false
    }
}

/// Whether a frame from the internal network is bound outside it: its
/// destination lies outside `internal`, or is the IPv4 broadcast address, or
/// is multicast sent from inside `internal` (for IPv6: any multicast).
pub open spec fn is_external_bound(f: Seq<u8>, internal: IpNet) -> bool {
    if has_ipv4_header(f) {
        !net_contains_v4(internal, ipv4_dst(f)) || is_v4_broadcast(ipv4_dst(f)) || (
        is_v4_multicast(ipv4_dst(f)) && net_contains_v4(internal, ipv4_src(f)))
    } else if has_ipv6_header(f) {
        !net_contains_v6(internal, ipv6_dst(f)) || is_v6_multicast(ipv6_dst(f))
    } else {
        false
    }
}

/// The safety hook run before forwarding. It holds no policy yet: loopback
/// prevention and rate limiting belong here once they are decided.
pub open spec fn is_safe(f: Seq<u8>) -> bool {
    true
}

/// Start and end of the IPv4 payload of a frame.
pub fn transport_bounds_of(f: &[u8]) -> (r: (usize, usize))
    requires
        f@.len() >= 34,
    ensures
        r.0 as int == transport_bounds(f@).0,
        r.1 as int == transport_bounds(f@).1,
        r.0 <= r.1 <= f@.len(),
        r.1 - r.0 <= 65535,
{
    let ihl: usize = (f[14] % 16) as usize * 4;
    let start: usize = if ihl < 20 {
        20
    } else {
        ihl
    };
    let total: usize = read_be16(f, 16) as usize;
    let len: usize = if total >= ihl {
        total - ihl
    } else {
        0
    };
    let avail: usize = f.len() - ETH_HEADER_LEN;
    if avail <= start {
        (f.len(), f.len())
    } else {
        let end: usize = if start + len < avail {
            start + len
        } else {
            avail
        };
        (ETH_HEADER_LEN + start, ETH_HEADER_LEN + end)
    }
}

/// Whether the frame's ethertype is `t`.
pub fn has_ethertype(f: &[u8], t: u16) -> (r: bool)
    ensures
        r == ethertype_is(f@, t as nat),
{
    f.len() >= ETH_HEADER_LEN && read_be16(f, 12) == t
}

/// Whether the frame's IPv4 or IPv6 source address is the address of an
/// entry of `src_ips` of the same version.
pub fn is_it_own_packet(f: &[u8], src_ips: &Vec<IpNet>) -> (r: bool)
    ensures
        r == is_own_traffic(f@, src_ips@),
{
    if has_ethertype(f, ETHERTYPE_IPV4) {
        if f.len() >= 34 {
            let src = bytes_at(f, 26, 4);
            let mut i: usize = 0;
            while i < src_ips.len()
                invariant
                    i <= src_ips@.len(),
                    has_ipv4_header(f@),
                    src@ == ipv4_src(f@),
                    forall|j: int| 0 <= j < i ==> !is_v4_entry_for(#[trigger] src_ips@[j], src@),
                decreases src_ips@.len() - i,
            {
                match &src_ips[i] {
                    IpNet::V4(n) => {
                        if bytes_equal(n.addr.as_slice(), src) {
                            assert(is_v4_entry_for(src_ips@[i as int], ipv4_src(f@)));
                            return true;
                        }
                    },
                    IpNet::V6(_) => {},
                }
                i = i + 1;
            }
            return false;
        }
    } else if has_ethertype(f, ETHERTYPE_IPV6) {
        if f.len() >= 54 {
            let src = bytes_at(f, 22, 16);
            let mut i: usize = 0;
            while i < src_ips.len()
                invariant
                    i <= src_ips@.len(),
                    has_ipv6_header(f@),
                    src@ == ipv6_src(f@),
                    forall|j: int| 0 <= j < i ==> !is_v6_entry_for(#[trigger] src_ips@[j], src@),
                decreases src_ips@.len() - i,
            {
                match &src_ips[i] {
                    IpNet::V4(_) => {},
                    IpNet::V6(n) => {
                        if bytes_equal(n.addr.as_slice(), src) {
                            assert(is_v6_entry_for(src_ips@[i as int], ipv6_src(f@)));
                            return true;
                        }
                    },
                }
                i = i + 1;
            }
            return false;
        }
    }
    false
}

/// Whether a frame from the internal network should leave through the
/// external interface.
pub fn is_it_external_packet(f: &[u8], internal_ip: &IpNet) -> (r: bool)
    ensures
        r == is_external_bound(f@, *internal_ip),
{
    if has_ethertype(f, ETHERTYPE_IPV4) {
        if f.len() >= 34 {
            let src = bytes_at(f, 26, 4);
            let dst = bytes_at(f, 30, 4);
            let broadcast = dst[0] == 255 && dst[1] == 255 && dst[2] == 255 && dst[3] == 255;
            let multicast = 224 <= dst[0] && dst[0] <= 239;
            return !internal_ip.contains_v4(dst) || broadcast || (multicast
                && internal_ip.contains_v4(src));
        }
    } else if has_ethertype(f, ETHERTYPE_IPV6) {
        if f.len() >= 54 {
            let dst = bytes_at(f, 38, 16);
            return !internal_ip.contains_v6(dst) || dst[0] == 0xff;
        }
    }
    false
}

/// The safety hook run before forwarding; it passes every frame.
pub fn is_packet_safe(f: &[u8]) -> (r: bool)
    ensures
        r == is_safe(f@),
{
    true
}

} // verus!
