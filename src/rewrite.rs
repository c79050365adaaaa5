//! The two address rewrites, external to internal and internal to external,
//! and the forwarding decision that wraps each of them.
use vstd::prelude::*;
use crate::addr::{bytes_at, ipv4_at, is_v4_broadcast, is_v4_multicast, net_contains_v4, IpNet, Ipv4Net, MacAddr};
use crate::bytes::{be16, put_be16, splice, write_be16, write_bytes};
use crate::checksum::{
    calculate_ipv4_checksum, header_checksum, tcp_checksum, tcp_checksum_of, udp_checksum,
    udp_checksum_of, TCP_CHECKSUM_OFFSET, UDP_CHECKSUM_OFFSET,
};
use crate::config::Ifaces;
use crate::frame::{
    has_ethertype, is_ipv6_frame, is_it_external_packet, is_it_own_packet, is_external_bound,
    is_own_traffic, is_packet_safe, is_safe, ipv4_dst, ipv4_src, transport_bounds, transport_bounds_of, ETHERTYPE_IPV4,
    ETHERTYPE_IPV6, ETH_HEADER_LEN, IP_PROTO_TCP, IP_PROTO_UDP, has_ipv4_header,
};

verus! {

broadcast use vstd::array::group_array_axioms;

/// Offset of the IPv4 header checksum inside a frame.
pub const IPV4_CHECKSUM_AT: usize = 24;

/// `f` with the TCP or UDP checksum recomputed under the pseudo-header of
/// `src` and `dst`; unchanged for another protocol or a payload too short to
/// hold the transport header.
pub open spec fn with_transport_checksum(f: Seq<u8>, src: Seq<u8>, dst: Seq<u8>) -> Seq<u8> {
    let (s, e) = transport_bounds(f);
    let seg = f.subrange(s, e);
    if f[23] == IP_PROTO_TCP && e - s >= 20 {
        put_be16(
            f,
            s + TCP_CHECKSUM_OFFSET,
            tcp_checksum_of(put_be16(seg, TCP_CHECKSUM_OFFSET as int, 0), src, dst),
        )
    } else if f[23] == IP_PROTO_UDP && e - s >= 8 {
        put_be16(
            f,
            s + UDP_CHECKSUM_OFFSET,
            udp_checksum_of(put_be16(seg, UDP_CHECKSUM_OFFSET as int, 0), src, dst),
        )
    } else {
        f
    }
}

/// `f` with the IPv4 header checksum cleared and then recomputed.
pub open spec fn with_header_checksum(f: Seq<u8>) -> Seq<u8> {
    let cleared = put_be16(f, IPV4_CHECKSUM_AT as int, 0);
    put_be16(f, IPV4_CHECKSUM_AT as int, header_checksum(cleared.subrange(14, 34)))
}

/// Whether a frame's IPv4 payload is TCP or UDP.
pub open spec fn carries_tcp_or_udp(f: Seq<u8>) -> bool {
    f[23] == IP_PROTO_TCP || f[23] == IP_PROTO_UDP
}

/// The rewrite of a frame received on the external interface, and whether
/// the result may be sent: the MAC addresses become `src_mac` / `dst_mac`;
/// for IPv4 the destination becomes `dst_ip` (with the TTL forced to 1 for a
/// multicast destination) and, for TCP and UDP, the transport and header
/// checksums are recomputed. Other ethertypes and protocols are not sent,
/// nor is an IPv4 frame too short to hold the twenty-byte IPv4 header.
pub open spec fn ext_to_int_rewrite(
    f: Seq<u8>,
    src_mac: Seq<u8>,
    dst_mac: Seq<u8>,
    dst_ip: Seq<u8>,
) -> (bool, Seq<u8>) {
    if f.len() < ETH_HEADER_LEN {
        (false, f)
    } else {
        let g = splice(splice(f, 0, dst_mac), 6, src_mac);
        if be16(f, 12) != ETHERTYPE_IPV4 {
            (false, g)
        } else if f.len() < 34 {
            (false, g)
        } else {
            let h = splice(g, 30, dst_ip);
            let h = if is_v4_multicast(dst_ip) {
                h.update(22, 1)
            } else {
                h
            };
            if !carries_tcp_or_udp(h) {
                (false, h)
            } else {
                (true, with_header_checksum(with_transport_checksum(h, ipv4_src(f), dst_ip)))
            }
        }
    }
}

/// The rewrite of a frame received on the internal interface, and whether
/// the result may be sent: the source MAC becomes `ext_mac`; for IPv4 the
/// source becomes `ext_ip` and, for TCP and UDP, the transport and header
/// checksums are recomputed. The destination is left as it is. Other
/// ethertypes and protocols are not sent, nor is an IPv4 frame too short to
/// hold the twenty-byte IPv4 header.
pub open spec fn int_to_ext_rewrite(f: Seq<u8>, ext_mac: Seq<u8>, ext_ip: Seq<u8>) -> (
    bool,
    Seq<u8>,
) {
    if f.len() < ETH_HEADER_LEN {
        (false, f)
    } else {
        let g = splice(f, 6, ext_mac);
        if be16(f, 12) != ETHERTYPE_IPV4 {
            (false, g)
        } else if f.len() < 34 {
            (false, g)
        } else {
            let h = splice(g, 26, ext_ip);
            if !carries_tcp_or_udp(h) {
                (false, h)
            } else {
                (true, with_header_checksum(with_transport_checksum(h, ext_ip, ipv4_dst(f))))
            }
        }
    }
}

/// What forwarding a frame from the external interface does: IPv6 frames,
/// the host's own traffic and unsafe frames are dropped untouched; any other
/// frame is rewritten, and sent where the rewrite allows it.
pub open spec fn ext_to_int_outcome(
    f: Seq<u8>,
    src_ips: Seq<IpNet>,
    src_mac: Seq<u8>,
    dst_mac: Seq<u8>,
    dst_ip: Seq<u8>,
) -> (bool, Seq<u8>) {
    if is_ipv6_frame(f) || is_own_traffic(f, src_ips) || !is_safe(f) {
        (false, f)
    } else {
        ext_to_int_rewrite(f, src_mac, dst_mac, dst_ip)
    }
}

/// What forwarding a frame from the internal interface does: IPv6 frames,
/// frames not bound outside the internal network and unsafe frames are
/// dropped untouched; any other frame is rewritten to the external binding,
/// and sent where the rewrite allows it.
pub open spec fn int_to_ext_outcome(f: Seq<u8>, ifaces: Ifaces) -> (bool, Seq<u8>) {
    if is_ipv6_frame(f) || !is_external_bound(f, IpNet::V4(ifaces.int_ip)) || !is_safe(f) {
        (false, f)
    } else {
        int_to_ext_rewrite(f, ifaces.ext_mac.octets@, ifaces.ext_ip.addr@)
    }
}

/// Recomputes the TCP or UDP checksum of an IPv4 frame under the
/// pseudo-header of `src` and `dst`.
fn update_transport_checksum(frame: &mut Vec<u8>, src: [u8; 4], dst: [u8; 4])
    requires
        old(frame)@.len() >= 34,
    ensures
        final(frame)@ == with_transport_checksum(old(frame)@, src@, dst@),
{
    let (s, e) = transport_bounds_of(frame.as_slice());
    let proto = frame[23];
    let ghost f = frame@;
    let ghost seg = f.subrange(s as int, e as int);
    if proto == IP_PROTO_TCP && e - s >= 20 {
        let c = tcp_checksum(bytes_at(frame.as_slice(), s, e - s), src, dst);
        write_be16(frame, s + TCP_CHECKSUM_OFFSET, c);
    } else if proto == IP_PROTO_UDP && e - s >= 8 {
        write_be16(frame, s + UDP_CHECKSUM_OFFSET, 0);
        assert(frame@.subrange(s as int, e as int) =~= put_be16(seg, UDP_CHECKSUM_OFFSET as int, 0));
        assert(put_be16(put_be16(seg, UDP_CHECKSUM_OFFSET as int, 0), UDP_CHECKSUM_OFFSET as int, 0)
            =~= put_be16(seg, UDP_CHECKSUM_OFFSET as int, 0));
        let c = udp_checksum(bytes_at(frame.as_slice(), s, e - s), src, dst);
        write_be16(frame, s + UDP_CHECKSUM_OFFSET, c);
        assert(frame@ =~= put_be16(f, s + UDP_CHECKSUM_OFFSET, c));
    }
}

/// Clears and recomputes the IPv4 header checksum of a frame.
fn update_header_checksum(frame: &mut Vec<u8>) -> (r: bool)
    requires
        old(frame)@.len() >= 34,
    ensures
        r,
        final(frame)@ == with_header_checksum(old(frame)@),
{
    let ghost f = frame@;
    write_be16(frame, IPV4_CHECKSUM_AT, 0);
    match calculate_ipv4_checksum(bytes_at(frame.as_slice(), ETH_HEADER_LEN, 20)) {
        Ok(c) => {
            write_be16(frame, IPV4_CHECKSUM_AT, c);
            assert(frame@ =~= with_header_checksum(f));
            true
        },
        Err(_) => false,
    }
}

/// Rewrites a frame received on the external interface for the internal
/// network; returns whether the result may be sent.
pub fn modify_ext_to_int_packet(
    frame: &mut Vec<u8>,
    src_mac: MacAddr,
    dest_mac: MacAddr,
    dest_ip: Ipv4Net,
) -> (r: bool)
    ensures
        (r, final(frame)@) == ext_to_int_rewrite(
            old(frame)@,
            src_mac.octets@,
            dest_mac.octets@,
            dest_ip.addr@,
        ),
{
    let ghost f = frame@;
    if frame.len() < ETH_HEADER_LEN {
        return false;
    }
    write_bytes(frame, 0, dest_mac.octets.as_slice());
    write_bytes(frame, 6, src_mac.octets.as_slice());
    let ghost g = frame@;
    assert(g[12] == f[12] && g[13] == f[13]);
    if !has_ethertype(frame.as_slice(), ETHERTYPE_IPV4) {
        return false;
    }
    if frame.len() < 34 {
        return false;
    }
    let src = ipv4_at(frame.as_slice(), 26);
    assert(src@ =~= ipv4_src(f));
    write_bytes(frame, 30, dest_ip.addr.as_slice());
    if 224 <= dest_ip.addr[0] && dest_ip.addr[0] <= 239 {
        frame[22] = 1;
    }
    let ghost h = frame@;
    assert(h == (if is_v4_multicast(dest_ip.addr@) {
        splice(g, 30, dest_ip.addr@).update(22, 1)
    } else {
        splice(g, 30, dest_ip.addr@)
    }));
    let proto = frame[23];
    if proto != IP_PROTO_TCP && proto != IP_PROTO_UDP {
        return false;
    }
    update_transport_checksum(frame, src, dest_ip.addr);
    update_header_checksum(frame)
}

/// Rewrites a frame received on the internal interface for the external
/// network; returns whether the result may be sent.
pub fn modify_int_to_ext_packet(frame: &mut Vec<u8>, ext_iface_mac: &MacAddr, ext_iface_ip: &Ipv4Net) -> (r: bool)
    ensures
        (r, final(frame)@) == int_to_ext_rewrite(
            old(frame)@,
            ext_iface_mac.octets@,
            ext_iface_ip.addr@,
        ),
{
    let ghost f = frame@;
    if frame.len() < ETH_HEADER_LEN {
        return false;
    }
    write_bytes(frame, 6, ext_iface_mac.octets.as_slice());
    let ghost g = frame@;
    assert(g[12] == f[12] && g[13] == f[13]);
    if !has_ethertype(frame.as_slice(), ETHERTYPE_IPV4) {
        return false;
    }
    if frame.len() < 34 {
        return false;
    }
    write_bytes(frame, 26, ext_iface_ip.addr.as_slice());
    let dst = ipv4_at(frame.as_slice(), 30);
    assert(dst@ =~= ipv4_dst(f));
    let proto = frame[23];
    if proto != IP_PROTO_TCP && proto != IP_PROTO_UDP {
        return false;
    }
    update_transport_checksum(frame, ext_iface_ip.addr, dst);
    update_header_checksum(frame)
}

/// Decides the fate of a frame received on the external interface and
/// rewrites it for the internal network; returns whether to send it.
pub fn external_to_internal_process_packet(
    frame: &mut Vec<u8>,
    src_ips: &Vec<IpNet>,
    src_mac: MacAddr,
    dest_mac: MacAddr,
    dest_ip: Ipv4Net,
) -> (send: bool)
    ensures
        (send, final(frame)@) == ext_to_int_outcome(
            old(frame)@,
            src_ips@,
            src_mac.octets@,
            dest_mac.octets@,
            dest_ip.addr@,
        ),
{
    if has_ethertype(frame.as_slice(), ETHERTYPE_IPV6) || is_it_own_packet(frame.as_slice(), src_ips)
        || !is_packet_safe(frame.as_slice()) {
        false
    } else {
        modify_ext_to_int_packet(frame, src_mac, dest_mac, dest_ip)
    }
}

/// Decides the fate of a frame received on the internal interface and
/// rewrites it to the external binding of `ifaces`; returns whether to send it.
pub fn internal_to_external_process_packet(frame: &mut Vec<u8>, ifaces: &Ifaces) -> (send: bool)
    ensures
        (send, final(frame)@) == int_to_ext_outcome(old(frame)@, *ifaces),
{
    let internal = IpNet::V4(ifaces.int_ip);
    if has_ethertype(frame.as_slice(), ETHERTYPE_IPV6) || !is_it_external_packet(
        frame.as_slice(),
        &internal,
    ) || !is_packet_safe(frame.as_slice()) {
        false
    } else {
        modify_int_to_ext_packet(frame, &ifaces.ext_mac, &ifaces.ext_ip)
    }
}

/// IPv6 frames are never forwarded, in either direction, whatever their
/// addresses.
pub proof fn lemma_ipv6_never_forwarded(
    f: Seq<u8>,
    src_ips: Seq<IpNet>,
    src_mac: Seq<u8>,
    dst_mac: Seq<u8>,
    dst_ip: Seq<u8>,
    ifaces: Ifaces,
)
    requires
        is_ipv6_frame(f),
    ensures
        !ext_to_int_outcome(f, src_ips, src_mac, dst_mac, dst_ip).0,
        !int_to_ext_outcome(f, ifaces).0,
{
}

/// A frame whose source address is one of the host's own addresses is never
/// forwarded from the external to the internal side, whatever its destination.
pub proof fn lemma_own_traffic_never_forwarded(
    f: Seq<u8>,
    src_ips: Seq<IpNet>,
    src_mac: Seq<u8>,
    dst_mac: Seq<u8>,
    dst_ip: Seq<u8>,
)
    requires
        is_own_traffic(f, src_ips),
    ensures
        !ext_to_int_outcome(f, src_ips, src_mac, dst_mac, dst_ip).0,
{
}

/// An IPv4 frame whose destination lies inside the internal network, and is
/// neither the broadcast address nor multicast sent from inside, is not bound
/// outside and is not forwarded to the external side.
pub proof fn lemma_internal_destination_not_forwarded(f: Seq<u8>, ifaces: Ifaces)
    requires
        has_ipv4_header(f),
        net_contains_v4(IpNet::V4(ifaces.int_ip), ipv4_dst(f)),
        !is_v4_broadcast(ipv4_dst(f)),
        !(is_v4_multicast(ipv4_dst(f)) && net_contains_v4(IpNet::V4(ifaces.int_ip), ipv4_src(f))),
    ensures
        !is_external_bound(f, IpNet::V4(ifaces.int_ip)),
        !int_to_ext_outcome(f, ifaces).0,
{
}

/// Whether the checksums of the IPv4 frame `g` are right for the source
/// `src` and destination `dst`: the IPv4 header checksum computed over the
/// header as it stands is zero, and a stored TCP or UDP checksum is the one
/// computed afresh over the final segment under that pseudo-header.
pub open spec fn checksums_hold(g: Seq<u8>, src: Seq<u8>, dst: Seq<u8>) -> bool {
    let (s, e) = transport_bounds(g);
    &&& header_checksum(g.subrange(14, 34)) == 0
    &&& (g[23] == IP_PROTO_TCP && e - s >= 20 ==> be16(g, s + TCP_CHECKSUM_OFFSET)
        == tcp_checksum_of(put_be16(g.subrange(s, e), TCP_CHECKSUM_OFFSET as int, 0), src, dst))
    &&& (g[23] == IP_PROTO_UDP && e - s >= 8 ==> be16(g, s + UDP_CHECKSUM_OFFSET)
        == udp_checksum_of(put_be16(g.subrange(s, e), UDP_CHECKSUM_OFFSET as int, 0), src, dst))
}

proof fn lemma_recomputed_checksums_hold(h: Seq<u8>, src: Seq<u8>, dst: Seq<u8>)
    requires
        h.len() >= 34,
    ensures
        ({
            let g = with_header_checksum(with_transport_checksum(h, src, dst));
            &&& checksums_hold(g, src, dst)
            &&& g.len() == h.len()
            &&& g[23] == h[23]
            &&& ipv4_src(g) == ipv4_src(h)
            &&& ipv4_dst(g) == ipv4_dst(h)
        }),
{
    let (s, e) = transport_bounds(h);
    let seg = h.subrange(s, e);
    let t = with_transport_checksum(h, src, dst);
    let hd = t.subrange(14, 34);
    let g = with_header_checksum(t);
    assert(hd =~= h.subrange(14, 34));
    assert(put_be16(t, IPV4_CHECKSUM_AT as int, 0).subrange(14, 34)
        =~= crate::checksum::clear_header_checksum(hd));
    assert(g.subrange(14, 34) =~= put_be16(
        hd,
        crate::checksum::IPV4_CHECKSUM_OFFSET as int,
        header_checksum(crate::checksum::clear_header_checksum(hd)),
    ));
    crate::checksum::lemma_header_checksum_validates(hd);
    assert(transport_bounds(g) == (s, e));
    if h[23] == IP_PROTO_TCP && e - s >= 20 {
        assert(put_be16(g.subrange(s, e), TCP_CHECKSUM_OFFSET as int, 0) =~= put_be16(
            seg,
            TCP_CHECKSUM_OFFSET as int,
            0,
        ));
    } else if h[23] == IP_PROTO_UDP && e - s >= 8 {
        assert(put_be16(g.subrange(s, e), UDP_CHECKSUM_OFFSET as int, 0) =~= put_be16(
            seg,
            UDP_CHECKSUM_OFFSET as int,
            0,
        ));
    }
    assert(ipv4_src(g) =~= ipv4_src(h));
    assert(ipv4_dst(g) =~= ipv4_dst(h));
}

/// After a frame is rewritten and sent from the external to the internal
/// side, a check over the final bytes finds every checksum right under the
/// final addresses: the original source and the new destination.
pub proof fn lemma_ext_to_int_checksums_hold(
    f: Seq<u8>,
    src_mac: Seq<u8>,
    dst_mac: Seq<u8>,
    dst_ip: Seq<u8>,
)
    requires
        src_mac.len() == 6,
        dst_mac.len() == 6,
        dst_ip.len() == 4,
        ext_to_int_rewrite(f, src_mac, dst_mac, dst_ip).0,
    ensures
        ({
            let g = ext_to_int_rewrite(f, src_mac, dst_mac, dst_ip).1;
            &&& checksums_hold(g, ipv4_src(g), ipv4_dst(g))
            &&& ipv4_src(g) == ipv4_src(f)
            &&& ipv4_dst(g) == dst_ip
        }),
{
    let g0 = splice(splice(f, 0, dst_mac), 6, src_mac);
    let h0 = splice(g0, 30, dst_ip);
    let h = if is_v4_multicast(dst_ip) {
        h0.update(22, 1)
    } else {
        h0
    };
    assert(ipv4_src(h) =~= ipv4_src(f));
    assert(ipv4_dst(h) =~= dst_ip);
    lemma_recomputed_checksums_hold(h, ipv4_src(f), dst_ip);
}

/// After a frame is rewritten and sent from the internal to the external
/// side, a check over the final bytes finds every checksum right under the
/// final addresses: the external address as source and the original
/// destination.
pub proof fn lemma_int_to_ext_checksums_hold(f: Seq<u8>, ext_mac: Seq<u8>, ext_ip: Seq<u8>)
    requires
        ext_mac.len() == 6,
        ext_ip.len() == 4,
        int_to_ext_rewrite(f, ext_mac, ext_ip).0,
    ensures
        ({
            let g = int_to_ext_rewrite(f, ext_mac, ext_ip).1;
            &&& checksums_hold(g, ipv4_src(g), ipv4_dst(g))
            &&& ipv4_src(g) == ext_ip
            &&& ipv4_dst(g) == ipv4_dst(f)
        }),
{
    let h = splice(splice(f, 6, ext_mac), 26, ext_ip);
    assert(ipv4_src(h) =~= ext_ip);
    assert(ipv4_dst(h) =~= ipv4_dst(f));
    lemma_recomputed_checksums_hold(h, ext_ip, ipv4_dst(f));
}

} // verus!
