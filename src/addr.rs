//! Link- and network-layer addresses: MAC addresses, and IPv4 / IPv6
//! networks given as an address and a prefix length.
use vstd::prelude::*;
use vstd::slice::slice_subrange;

verus! {

/// A 48-bit Ethernet hardware address.
#[derive(Debug, Clone, Copy, PartialEq, Eq)]
pub struct MacAddr {
    pub octets: [u8; 6],
}

impl MacAddr {
    /// The all-zero address, used where an interface reports none.
    pub fn zero() -> (r: MacAddr)
        ensures
            r.octets@ == seq![0u8, 0u8, 0u8, 0u8, 0u8, 0u8],
    {
        let r = MacAddr { octets: [0u8, 0u8, 0u8, 0u8, 0u8, 0u8] };
        assert(r.octets@ =~= seq![0u8, 0u8, 0u8, 0u8, 0u8, 0u8]);
        r
    }
}

/// An IPv4 network: a host address and the length of its network prefix.
#[derive(Debug, Clone, Copy, PartialEq, Eq)]
pub struct Ipv4Net {
    pub addr: [u8; 4],
    pub prefix: u8,
}

/// An IPv6 network: a host address and the length of its network prefix.
#[derive(Debug, Clone, Copy, PartialEq, Eq)]
pub struct Ipv6Net {
    pub addr: [u8; 16],
    pub prefix: u8,
}

/// A network of either IP version.
#[derive(Debug, Clone, Copy, PartialEq, Eq)]
pub enum IpNet {
    V4(Ipv4Net),
    V6(Ipv6Net),
}

/// Whether the first `bits` bits of `a` and `b` agree; a prefix longer than
/// the addresses compares them whole.
pub open spec fn prefix_match(a: Seq<u8>, b: Seq<u8>, bits: nat) -> bool {
    let n = if bits > 8 * a.len() { 8 * a.len() } else { bits };
    let full = (n / 8) as int;
    let rem = n % 8;
    a.subrange(0, full) == b.subrange(0, full) && (rem == 0 || a[full] >> ((8 - rem) as u8)
        == b[full] >> ((8 - rem) as u8))
}

/// Whether an IPv4 address lies in the multicast range 224.0.0.0/4.
pub open spec fn is_v4_multicast(a: Seq<u8>) -> bool {
    224 <= a[0] <= 239
}

/// Whether an IPv4 address is the limited broadcast address 255.255.255.255.
pub open spec fn is_v4_broadcast(a: Seq<u8>) -> bool {
    a[0] == 255 && a[1] == 255 && a[2] == 255 && a[3] == 255
}

/// Whether an IPv6 address lies in the multicast range ff00::/8.
pub open spec fn is_v6_multicast(a: Seq<u8>) -> bool {
    a[0] == 0xff
}

/// Whether `net` is an IPv4 network that holds the IPv4 address `a`.
pub open spec fn net_contains_v4(net: IpNet, a: Seq<u8>) -> bool {
    match net {
        IpNet::V4(n) => prefix_match(n.addr@, a, n.prefix as nat),
        IpNet::V6(_) => false,
    }
}

/// Whether `net` is an IPv6 network that holds the IPv6 address `a`.
pub open spec fn net_contains_v6(net: IpNet, a: Seq<u8>) -> bool {
    match net {
        IpNet::V4(_) => false,
        IpNet::V6(n) => prefix_match(n.addr@, a, n.prefix as nat),
    }
}

/// Whether the first `bits` bits of `a` and `b` agree.
pub fn prefix_matches(a: &[u8], b: &[u8], bits: u8) -> (r: bool)
    requires
        a@.len() == b@.len(),
        a@.len() <= 16,
    ensures
        r == prefix_match(a@, b@, bits as nat),
{
    let n: usize = if bits as usize > 8 * a.len() {
        8 * a.len()
    } else {
        bits as usize
    };
    let full: usize = n / 8;
    let rem: usize = n % 8;
    let ghost n_spec: nat = if bits as nat > 8 * a@.len() {
        8 * a@.len()
    } else {
        bits as nat
    };
    assert(n as nat == n_spec && full as int == (n_spec / 8) as int && rem as nat == n_spec % 8);
    let mut i: usize = 0;
    while i < full
        invariant
            full as int == (n_spec / 8) as int,
            n_spec == (if bits as nat > 8 * a@.len() {
                8 * a@.len()
            } else {
                bits as nat
            }),
            full <= a@.len(),
            a@.len() == b@.len(),
            i <= full,
            a@.subrange(0, i as int) == b@.subrange(0, i as int),
        decreases full - i,
    {
        if a[i] != b[i] {
            assert(a@.subrange(0, full as int)[i as int] != b@.subrange(0, full as int)[i as int]);
            assert(a@.subrange(0, full as int) != b@.subrange(0, full as int));
            return false;
        }
        i = i + 1;
        assert(a@.subrange(0, i as int) =~= b@.subrange(0, i as int)) by {
            assert forall|k: int| 0 <= k < i implies a@[k] == b@[k] by {
                if k < i - 1 {
                    assert(a@.subrange(0, i - 1)[k] == b@.subrange(0, i - 1)[k]);
                }
            }
        }
    }
    if rem == 0 {
        true
    } else {
        let shift: u8 = (8 - rem) as u8;
        (a[full] >> shift) == (b[full] >> shift)
    }
}

/// Whether two byte strings of equal length are equal.
pub fn bytes_equal(a: &[u8], b: &[u8]) -> (r: bool)
    requires
        a@.len() == b@.len(),
    ensures
        r == (a@ == b@),
{
    let mut i: usize = 0;
    while i < a.len()
        invariant
            a@.len() == b@.len(),
            i <= a@.len(),
            a@.subrange(0, i as int) == b@.subrange(0, i as int),
        decreases a@.len() - i,
    {
        if a[i] != b[i] {
            return false;
        }
        i = i + 1;
        assert(a@.subrange(0, i as int) =~= b@.subrange(0, i as int)) by {
            assert forall|k: int| 0 <= k < i implies a@[k] == b@[k] by {
                if k < i - 1 {
                    assert(a@.subrange(0, i - 1)[k] == b@.subrange(0, i - 1)[k]);
                }
            }
        }
    }
    assert(a@ =~= a@.subrange(0, i as int));
    assert(b@ =~= b@.subrange(0, i as int));
    true
}

impl Ipv4Net {
    /// The network `addr/prefix`; `None` for a prefix longer than 32 bits.
    pub fn new(addr: [u8; 4], prefix: u8) -> (r: Option<Ipv4Net>)
        ensures
            prefix <= 32 ==> r == Some(Ipv4Net { addr, prefix }),
            prefix > 32 ==> r is None,
    {
        if prefix <= 32 {
            Some(Ipv4Net { addr, prefix })
        } else {
            None
        }
    }

    /// The host address of the network.
    pub fn ip(&self) -> (r: [u8; 4])
        ensures
            r == self.addr,
    {
        self.addr
    }

    /// Whether `ip` lies in this network.
    pub fn contains(&self, ip: &[u8]) -> (r: bool)
        requires
            ip@.len() == 4,
        ensures
            r == prefix_match(self.addr@, ip@, self.prefix as nat),
    {
        prefix_matches(self.addr.as_slice(), ip, self.prefix)
    }
}

impl Ipv6Net {
    /// The network `addr/prefix`; `None` for a prefix longer than 128 bits.
    pub fn new(addr: [u8; 16], prefix: u8) -> (r: Option<Ipv6Net>)
        ensures
            prefix <= 128 ==> r == Some(Ipv6Net { addr, prefix }),
            prefix > 128 ==> r is None,
    {
        if prefix <= 128 {
            Some(Ipv6Net { addr, prefix })
        } else {
            None
        }
    }

    /// Whether `ip` lies in this network.
    pub fn contains(&self, ip: &[u8]) -> (r: bool)
        requires
            ip@.len() == 16,
        ensures
            r == prefix_match(self.addr@, ip@, self.prefix as nat),
    {
        prefix_matches(self.addr.as_slice(), ip, self.prefix)
    }
}

impl IpNet {
    /// Whether this is an IPv4 network.
    pub fn is_ipv4(&self) -> (r: bool)
        ensures
            r == (self is V4),
    {
        match self {
            IpNet::V4(_) => true,
            IpNet::V6(_) => false,
        }
    }

    /// Whether the IPv4 address `ip` lies in this network; never for an
    /// IPv6 network.
    pub fn contains_v4(&self, ip: &[u8]) -> (r: bool)
        requires
            ip@.len() == 4,
        ensures
            r == net_contains_v4(*self, ip@),
    {
        match self {
            IpNet::V4(n) => n.contains(ip),
            IpNet::V6(_) => false,
        }
    }

    /// Whether the IPv6 address `ip` lies in this network; never for an
    /// IPv4 network.
    pub fn contains_v6(&self, ip: &[u8]) -> (r: bool)
        requires
            ip@.len() == 16,
        ensures
            r == net_contains_v6(*self, ip@),
    {
        match self {
            IpNet::V4(_) => false,
            IpNet::V6(n) => n.contains(ip),
        }
    }
}

/// The bytes `off .. off + len` of `s`.
pub fn bytes_at(s: &[u8], off: usize, len: usize) -> (r: &[u8])
    requires
        off + len <= s@.len(),
    ensures
        r@ == s@.subrange(off as int, off + len),
{
    let _len = s.len();
    slice_subrange(s, off, off + len)
}

/// The four bytes at `off`, as an IPv4 address.
pub fn ipv4_at(f: &[u8], off: usize) -> (r: [u8; 4])
    requires
        off + 4 <= f@.len(),
    ensures
        r@ == f@.subrange(off as int, off + 4),
{
    let r = [f[off], f[off + 1], f[off + 2], f[off + 3]];
    assert(r@ =~= f@.subrange(off as int, off + 4));
    r
}

} // verus!
