//! Which IPv4 network each of the two interfaces is bound to, and how that
//! binding is chosen from the addresses an interface carries.
use vstd::prelude::*;
use crate::addr::{IpNet, Ipv4Net, MacAddr};
use crate::frame::is_v4_entry_for;

verus! {

/// An interface as the system reports it: its name, the networks assigned
/// to it, and its hardware address if it has one.
#[derive(Debug, Clone)]
pub struct Iface {
    pub name: String,
    pub ips: Vec<IpNet>,
    pub mac: Option<MacAddr>,
}

/// The binding of both interfaces: the IPv4 network and MAC address of the
/// external and of the internal side.
#[derive(Debug, Clone, Copy, PartialEq, Eq)]
pub struct Ifaces {
    pub ext_ip: Ipv4Net,
    pub ext_mac: MacAddr,
    pub int_ip: Ipv4Net,
    pub int_mac: MacAddr,
}

/// Why no IPv4 network could be bound to an interface.
#[derive(Debug, Clone, PartialEq, Eq)]
pub enum SelectIpError {
    /// The requested address is none of the interface's addresses.
    AddressMismatch { requested: Ipv4Net, iface: String },
    /// The interface carries no IPv4 address.
    NoIpv4Address { iface: String },
}

/// Whether `ips` holds at least two IPv4 networks.
pub open spec fn has_several_v4(ips: Seq<IpNet>) -> bool {
    exists|i: int, j: int|
        0 <= i < j < ips.len() && (#[trigger] ips[i]) is V4 && (#[trigger] ips[j]) is V4
}

/// Whether `ips` holds an IPv4 network whose address is `a`.
pub open spec fn lists_v4_address(ips: Seq<IpNet>, a: Seq<u8>) -> bool {
    exists|i: int| 0 <= i < ips.len() && is_v4_entry_for(#[trigger] ips[i], a)
}

/// Whether `n` is the first IPv4 network of `ips`.
pub open spec fn is_first_v4(ips: Seq<IpNet>, n: Ipv4Net) -> bool {
    exists|i: int|
        0 <= i < ips.len() && ips[i] == IpNet::V4(n) && forall|j: int|
            0 <= j < i ==> !((#[trigger] ips[j]) is V4)
}

/// Whether `ips` holds no IPv4 network.
pub open spec fn has_no_v4(ips: Seq<IpNet>) -> bool {
    forall|j: int| 0 <= j < ips.len() ==> !((#[trigger] ips[j]) is V4)
}

/// The outcome of choosing the network of `iface`: with several IPv4
/// networks and a requested one, the requested network if its address is
/// listed and a mismatch otherwise; else the first IPv4 network, or an error
/// naming the interface when there is none.
pub open spec fn selects(iface: Iface, requested: Option<Ipv4Net>, r: Result<Ipv4Net, SelectIpError>) -> bool {
    let ips = iface.ips@;
    if has_several_v4(ips) && requested is Some {
        let req = requested->Some_0;
        if lists_v4_address(ips, req.addr@) {
            r == Ok::<Ipv4Net, SelectIpError>(req)
        } else {
            match r {
                Err(SelectIpError::AddressMismatch { requested: q, iface: name }) => q == req
                    && name@ == iface.name@,
                _ => false,
            }
        }
    } else {
        match r {
            Ok(n) => is_first_v4(ips, n),
            Err(SelectIpError::NoIpv4Address { iface: name }) => has_no_v4(ips) && name@
                == iface.name@,
            _ => false,
        }
    }
}

/// Index of the first IPv4 network of `ips` at or after `from`, or the length
/// of `ips` when there is none.
fn next_v4(ips: &Vec<IpNet>, from: usize) -> (r: usize)
    requires
        from <= ips@.len(),
    ensures
        from <= r <= ips@.len(),
        r < ips@.len() ==> ips@[r as int] is V4,
        forall|j: int| from <= j < r ==> !((#[trigger] ips@[j]) is V4),
{
    let mut i = from;
    while i < ips.len()
        invariant
            from <= i <= ips@.len(),
            forall|j: int| from <= j < i ==> !((#[trigger] ips@[j]) is V4),
        decreases ips@.len() - i,
    {
        if ips[i].is_ipv4() {
            return i;
        }
        i = i + 1;
    }
    i
}

/// Whether `ips` holds an IPv4 network whose address is `a`.
fn lists_address(ips: &Vec<IpNet>, a: &Ipv4Net) -> (r: bool)
    ensures
        r == lists_v4_address(ips@, a.addr@),
{
    let mut i: usize = 0;
    while i < ips.len()
        invariant
            i <= ips@.len(),
            forall|j: int| 0 <= j < i ==> !is_v4_entry_for(#[trigger] ips@[j], a.addr@),
        decreases ips@.len() - i,
    {
        match &ips[i] {
            IpNet::V4(n) => {
                if crate::addr::bytes_equal(n.addr.as_slice(), a.addr.as_slice()) {
                    assert(is_v4_entry_for(ips@[i as int], a.addr@));
                    return true;
                }
            },
            IpNet::V6(_) => {},
        }
        i = i + 1;
    }
    false
}

/// Chooses the IPv4 network to bind to `iface`.
pub fn select_ip(iface: &Iface, iface_ip: Option<Ipv4Net>) -> (r: Result<Ipv4Net, SelectIpError>)
    ensures
        selects(*iface, iface_ip, r),
{
    let ips = &iface.ips;
    let first = next_v4(ips, 0);
    let several = first < ips.len() && next_v4(ips, first + 1) < ips.len();
    assert(several == has_several_v4(ips@)) by {
        if has_several_v4(ips@) {
            let (i, j) = choose|i: int, j: int|
                0 <= i < j < ips@.len() && (#[trigger] ips@[i]) is V4 && (#[trigger] ips@[j]) is V4;
            assert(first <= i);
        }
    }
    if several {
        if let Some(req) = iface_ip {
            if !lists_address(ips, &req) {
                return Err(
                    SelectIpError::AddressMismatch { requested: req, iface: iface.name.clone() },
                );
            }
            return Ok(req);
        }
    }
    if first < ips.len() {
        match &ips[first] {
            IpNet::V4(n) => Ok(*n),
            IpNet::V6(_) => Err(SelectIpError::NoIpv4Address { iface: iface.name.clone() }),
        }
    } else {
        Err(SelectIpError::NoIpv4Address { iface: iface.name.clone() })
    }
}

/// `select_ip`, under the name the test suite calls it by.
pub fn select_ip_test(iface: &Iface, iface_ip: Option<Ipv4Net>) -> (r: Result<Ipv4Net, SelectIpError>)
    ensures
        selects(*iface, iface_ip, r),
{
    select_ip(iface, iface_ip)
}

/// The decimal text of one digit.
pub open spec fn digit_text(d: nat) -> Seq<char> {
    if d == 0 {
        "0"@
    } else if d == 1 {
        "1"@
    } else if d == 2 {
        "2"@
    } else if d == 3 {
        "3"@
    } else if d == 4 {
        "4"@
    } else if d == 5 {
        "5"@
    } else if d == 6 {
        "6"@
    } else if d == 7 {
        "7"@
    } else if d == 8 {
        "8"@
    } else {
        "9"@
    }
}

/// The decimal text of `n`, without leading zeros.
pub open spec fn decimal(n: nat) -> Seq<char>
    decreases n,
{
    if n < 10 {
        digit_text(n)
    } else {
        decimal(n / 10) + digit_text(n % 10)
    }
}

/// The text of an IPv4 network: dotted decimal address, a slash, the prefix.
pub open spec fn ipv4_net_text(n: Ipv4Net) -> Seq<char> {
    decimal(n.addr[0] as nat) + "."@ + decimal(n.addr[1] as nat) + "."@ + decimal(
        n.addr[2] as nat,
    ) + "."@ + decimal(n.addr[3] as nat) + "/"@ + decimal(n.prefix as nat)
}

/// The text that reports a selection error.
pub open spec fn error_text(e: SelectIpError) -> Seq<char> {
    match e {
        SelectIpError::AddressMismatch { requested, iface } => "Provided IP "@ + ipv4_net_text(
            requested,
        ) + " does not match any IPs in interface "@ + iface@,
        SelectIpError::NoIpv4Address { iface } => "No IPv4 address found for interface "@
            + iface@,
    }
}

fn push_digit(s: &mut String, d: u8)
    requires
        d < 10,
    ensures
        final(s)@ == old(s)@ + digit_text(d as nat),
{
    if d == 0 {
        s.append("0");
    } else if d == 1 {
        s.append("1");
    } else if d == 2 {
        s.append("2");
    } else if d == 3 {
        s.append("3");
    } else if d == 4 {
        s.append("4");
    } else if d == 5 {
        s.append("5");
    } else if d == 6 {
        s.append("6");
    } else if d == 7 {
        s.append("7");
    } else if d == 8 {
        s.append("8");
    } else {
        s.append("9");
    }
}

fn push_decimal(s: &mut String, n: u8)
    ensures
        final(s)@ == old(s)@ + decimal(n as nat),
{
    let ghost s0 = s@;
    let ghost m = n as nat;
    if n >= 100 {
        push_digit(s, n / 100);
        push_digit(s, (n / 10) % 10);
        push_digit(s, n % 10);
        assert(decimal(m / 100) == digit_text(m / 100));
        assert(decimal(m / 10) == decimal(m / 10 / 10) + digit_text((m / 10) % 10));
        assert(m / 10 / 10 == m / 100);
        assert(decimal(m) == decimal(m / 10) + digit_text(m % 10));
        assert(s@ =~= s0 + decimal(m));
    } else if n >= 10 {
        push_digit(s, n / 10);
        push_digit(s, n % 10);
        assert(decimal(m / 10) == digit_text(m / 10));
        assert(decimal(m) == decimal(m / 10) + digit_text(m % 10));
        assert(s@ =~= s0 + decimal(m));
    } else {
        push_digit(s, n);
    }
}

impl SelectIpError {
    /// The text that reports this error.
    pub fn message(&self) -> (r: String)
        ensures
            r@ == error_text(*self),
    {
        match self {
            SelectIpError::AddressMismatch { requested, iface } => {
                let mut s = String::from_str("Provided IP ");
                let ghost s0 = s@;
                push_decimal(&mut s, requested.addr[0]);
                s.append(".");
                push_decimal(&mut s, requested.addr[1]);
                s.append(".");
                push_decimal(&mut s, requested.addr[2]);
                s.append(".");
                push_decimal(&mut s, requested.addr[3]);
                s.append("/");
                push_decimal(&mut s, requested.prefix);
                assert(s@ =~= s0 + ipv4_net_text(*requested));
                s.append(" does not match any IPs in interface ");
                s.append(iface.as_str());
                s
            },
            SelectIpError::NoIpv4Address { iface } => {
                let mut s = String::from_str("No IPv4 address found for interface ");
                s.append(iface.as_str());
                s
            },
        }
    }
}

/// The MAC address an interface reports, or the all-zero address.
pub open spec fn mac_or_zero(mac: Option<MacAddr>) -> Seq<u8> {
    match mac {
        Some(m) => m.octets@,
        None => seq![0u8, 0u8, 0u8, 0u8, 0u8, 0u8],
    }
}

/// Whether a network can be chosen for `iface` given the requested one.
pub open spec fn selection_succeeds(iface: Iface, requested: Option<Ipv4Net>) -> bool {
    if has_several_v4(iface.ips@) && requested is Some {
        lists_v4_address(iface.ips@, requested->Some_0.addr@)
    } else {
        !has_no_v4(iface.ips@)
    }
}

/// The current binding of both interfaces. It is replaced as a whole, and
/// only once both sides of a new binding have been chosen.
pub struct IfaceRegistry {
    ifaces: Ifaces,
}

impl View for IfaceRegistry {
    type V = Ifaces;

    closed spec fn view(&self) -> Ifaces {
        self.ifaces
    }
}

impl IfaceRegistry {
    /// A registry bound to 0.0.0.0/0 and the all-zero MAC on both sides.
    pub fn new() -> (r: IfaceRegistry)
        ensures
            r@.ext_ip.addr@ == seq![0u8, 0u8, 0u8, 0u8],
            r@.ext_ip.prefix == 0,
            r@.ext_mac.octets@ == mac_or_zero(None),
            r@.int_ip.addr@ == seq![0u8, 0u8, 0u8, 0u8],
            r@.int_ip.prefix == 0,
            r@.int_mac.octets@ == mac_or_zero(None),
    {
        let any = Ipv4Net { addr: [0u8, 0u8, 0u8, 0u8], prefix: 0 };
        assert(any.addr@ =~= seq![0u8, 0u8, 0u8, 0u8]);
        IfaceRegistry {
            ifaces: Ifaces { ext_ip: any, ext_mac: MacAddr::zero(), int_ip: any, int_mac: MacAddr::zero() },
        }
    }

    /// Chooses the networks of both interfaces and, only if both choices
    /// succeed, replaces the binding with them and the interfaces' MACs.
    pub fn assign_ifaces(
        &mut self,
        ext_iface: &Iface,
        int_iface: &Iface,
        ext_iface_ip: Option<Ipv4Net>,
        int_iface_ip: Option<Ipv4Net>,
    ) -> (r: Result<(), SelectIpError>)
        ensures
            r is Ok <==> selection_succeeds(*ext_iface, ext_iface_ip) && selection_succeeds(
                *int_iface,
                int_iface_ip,
            ),
            r is Ok ==> selects(*ext_iface, ext_iface_ip, Ok::<Ipv4Net, SelectIpError>(final(self)@.ext_ip))
                && selects(*int_iface, int_iface_ip, Ok::<Ipv4Net, SelectIpError>(final(self)@.int_ip))
                && final(self)@.ext_mac.octets@ == mac_or_zero(ext_iface.mac)
                && final(self)@.int_mac.octets@ == mac_or_zero(int_iface.mac),
            r is Err ==> final(self)@ == old(self)@,
            r is Err && !selection_succeeds(*ext_iface, ext_iface_ip) ==> selects(
                *ext_iface,
                ext_iface_ip,
                Err::<Ipv4Net, SelectIpError>(r->Err_0),
            ),
            r is Err && selection_succeeds(*ext_iface, ext_iface_ip) ==> selects(
                *int_iface,
                int_iface_ip,
                Err::<Ipv4Net, SelectIpError>(r->Err_0),
            ),
    {
        let ext_ip = match select_ip(ext_iface, ext_iface_ip) {
            Ok(n) => n,
            Err(e) => return Err(e),
        };
        let int_ip = match select_ip(int_iface, int_iface_ip) {
            Ok(n) => n,
            Err(e) => return Err(e),
        };
        let ext_mac = match ext_iface.mac {
            Some(m) => m,
            None => MacAddr::zero(),
        };
        let int_mac = match int_iface.mac {
            Some(m) => m,
            None => MacAddr::zero(),
        };
        self.ifaces = Ifaces { ext_ip, ext_mac, int_ip, int_mac };
        Ok(())
    }

    /// A copy of the current binding.
    pub fn get_ifaces(&self) -> (r: Ifaces)
        ensures
            r == self@,
    {
        self.ifaces
    }
}

} // verus!
