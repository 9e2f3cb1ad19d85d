//! Choosing the source address and interface of a probe from the host's
//! interface list.
use vstd::prelude::*;
use crate::addr::{Ipv4Addr, Ipv6Addr, MacAddr};
use crate::error::ScanError;

verus! {

/// An IPv4 address configured on an interface, with its prefix length.
#[derive(Debug, Clone, Copy, PartialEq, Eq, Structural)]
pub struct Ipv4Net {
    pub addr: Ipv4Addr,
    pub prefix: u8,
}

/// A network interface as the operating system lists it.
#[derive(Debug)]
pub struct Interface {
    pub name: String,
    pub mac: Option<MacAddr>,
    pub ips: Vec<Ipv4Net>,
    pub ips6: Vec<Ipv6Addr>,
    pub is_up: bool,
    pub is_loopback: bool,
}

/// Two to the power `n`.
pub open spec fn pow2(n: nat) -> nat
    decreases n,
{
    if n == 0 {
        1
    } else {
        2 * pow2((n - 1) as nat)
    }
}

/// Whether `a` lies in the network of `net`.
pub open spec fn in_subnet(net: Ipv4Net, a: Ipv4Addr) -> bool {
    net.prefix <= 32 && net.addr.0 as int / pow2((32 - net.prefix) as nat) as int == a.0 as int
        / pow2((32 - net.prefix) as nat) as int
}

/// Whether an address is in 127.0.0.0/8.
pub open spec fn is_loopback_addr(a: Ipv4Addr) -> bool {
    a.0 as int / 0x1000000 == 127
}

/// Whether an interface may carry probes to `dst`: it is up, and it is not
/// a loopback interface unless `dst` is a loopback address.
pub open spec fn usable(i: Interface, dst: Ipv4Addr) -> bool {
    i.is_up && (!i.is_loopback || is_loopback_addr(dst))
}

/// The first address among `nets` whose network holds `dst`.
pub open spec fn net_source(nets: Seq<Ipv4Net>, dst: Ipv4Addr) -> Option<Ipv4Addr>
    decreases nets.len(),
{
    if nets.len() == 0 {
        None
    } else {
        match net_source(nets.drop_last(), dst) {
            Some(a) => Some(a),
            None => if in_subnet(nets.last(), dst) {
                Some(nets.last().addr)
            } else {
                None
            },
        }
    }
}

/// The first address, on a usable interface, whose network holds `dst`.
pub open spec fn subnet_source(ifs: Seq<Interface>, dst: Ipv4Addr) -> Option<Ipv4Addr>
    decreases ifs.len(),
{
    if ifs.len() == 0 {
        None
    } else {
        match subnet_source(ifs.drop_last(), dst) {
            Some(a) => Some(a),
            None => if usable(ifs.last(), dst) {
                net_source(ifs.last().ips@, dst)
            } else {
                None
            },
        }
    }
}

/// The default-route choice: the first address of the first usable
/// interface that is not a loopback and has an address.
pub open spec fn default_source(ifs: Seq<Interface>, dst: Ipv4Addr) -> Option<Ipv4Addr>
    decreases ifs.len(),
{
    if ifs.len() == 0 {
        None
    } else {
        match default_source(ifs.drop_last(), dst) {
            Some(a) => Some(a),
            None => if usable(ifs.last(), dst) && !ifs.last().is_loopback && ifs.last().ips@.len()
                > 0 {
                Some(ifs.last().ips@[0].addr)
            } else {
                None
            },
        }
    }
}

/// The source address for probes to `dst`: the one given; else an address
/// on the same network; else the default-route choice.
pub open spec fn source_for(ifs: Seq<Interface>, src: Option<Ipv4Addr>, dst: Ipv4Addr) -> Option<Ipv4Addr> {
    match src {
        Some(s) => Some(s),
        None => match subnet_source(ifs, dst) {
            Some(a) => Some(a),
            None => default_source(ifs, dst),
        },
    }
}

/// The index of the first interface that carries `src`.
pub open spec fn interface_of(ifs: Seq<Interface>, src: Ipv4Addr) -> Option<int>
    decreases ifs.len(),
{
    if ifs.len() == 0 {
        None
    } else {
        match interface_of(ifs.drop_last(), src) {
            Some(i) => Some(i),
            None => if exists|j: int| 0 <= j < ifs.last().ips@.len() && (#[trigger] ifs.last().ips@[j]).addr == src {
                Some(ifs.len() - 1)
            } else {
                None
            },
        }
    }
}

/// Two to the power `n`, for `n` up to 32.
fn block_size(n: u8) -> (r: u64)
    requires
        n <= 32,
    ensures
        r as nat == pow2(n as nat),
{
    let mut r: u64 = 1;
    let mut k: u8 = 0;
    while k < n
        invariant
            k <= n <= 32,
            r as nat == pow2(k as nat),
        decreases n - k,
    {
        proof {
            lemma_pow2_split(k as nat);
            lemma_pow2_mono(k as nat + 1, 32);
            lemma_pow2_32();
        }
        r = r * 2;
        k = k + 1;
    }
    r
}

proof fn lemma_pow2_split(n: nat)
    ensures
        pow2(n + 1) == 2 * pow2(n),
        pow2(n) >= 1,
    decreases n,
{
    if n > 0 {
        lemma_pow2_split((n - 1) as nat);
    }
}

proof fn lemma_pow2_mono(a: nat, b: nat)
    requires
        a <= b,
    ensures
        pow2(a) <= pow2(b),
    decreases b,
{
    if a < b {
        lemma_pow2_mono(a, (b - 1) as nat);
        lemma_pow2_split((b - 1) as nat);
    }
}

proof fn lemma_pow2_32()
    ensures
        pow2(32) == 0x1_0000_0000,
{
    reveal_with_fuel(pow2, 33);
}

/// Whether `a` lies in the network of `net`.
pub fn net_contains(net: Ipv4Net, a: Ipv4Addr) -> (r: bool)
    ensures
        r == in_subnet(net, a),
{
    if net.prefix > 32 {
        return false;
    }
    let d = block_size(32 - net.prefix);
    proof {
        lemma_pow2_split((32 - net.prefix) as nat);
    }
    net.addr.0 as u64 / d == a.0 as u64 / d
}

fn is_loopback(a: Ipv4Addr) -> (r: bool)
    ensures
        r == is_loopback_addr(a),
{
    a.0 / 0x1000000 == 127
}

fn usable_for(i: &Interface, dst: Ipv4Addr) -> (r: bool)
    ensures
        r == usable(*i, dst),
{
    i.is_up && (!i.is_loopback || is_loopback(dst))
}

/// The first address among `nets` whose network holds `dst`.
fn find_in_nets(nets: &Vec<Ipv4Net>, dst: Ipv4Addr) -> (r: Option<Ipv4Addr>)
    ensures
        r == net_source(nets@, dst),
{
    let mut i: usize = 0;
    assert(nets@.take(0) =~= Seq::<Ipv4Net>::empty());
    while i < nets.len()
        invariant
            i <= nets@.len(),
            net_source(nets@.take(i as int), dst) is None,
        decreases nets@.len() - i,
    {
        assert(nets@.take(i as int + 1).drop_last() =~= nets@.take(i as int));
        if net_contains(nets[i], dst) {
            proof {
                lemma_net_source_prefix(nets@, i as int + 1, dst);
            }
            return Some(nets[i].addr);
        }
        i = i + 1;
    }
    assert(nets@.take(i as int) =~= nets@);
    None
}

proof fn lemma_net_source_prefix(s: Seq<Ipv4Net>, i: int, dst: Ipv4Addr)
    requires
        0 <= i <= s.len(),
        net_source(s.take(i), dst) is Some,
    ensures
        net_source(s, dst) == net_source(s.take(i), dst),
    decreases s.len(),
{
    if i < s.len() {
        assert(s.drop_last().take(i) =~= s.take(i));
        lemma_net_source_prefix(s.drop_last(), i, dst);
    } else {
        assert(s.take(i) =~= s);
    }
}

proof fn lemma_subnet_source_prefix(s: Seq<Interface>, i: int, dst: Ipv4Addr)
    requires
        0 <= i <= s.len(),
        subnet_source(s.take(i), dst) is Some,
    ensures
        subnet_source(s, dst) == subnet_source(s.take(i), dst),
    decreases s.len(),
{
    if i < s.len() {
        assert(s.drop_last().take(i) =~= s.take(i));
        lemma_subnet_source_prefix(s.drop_last(), i, dst);
    } else {
        assert(s.take(i) =~= s);
    }
}

proof fn lemma_default_source_prefix(s: Seq<Interface>, i: int, dst: Ipv4Addr)
    requires
        0 <= i <= s.len(),
        default_source(s.take(i), dst) is Some,
    ensures
        default_source(s, dst) == default_source(s.take(i), dst),
    decreases s.len(),
{
    if i < s.len() {
        assert(s.drop_last().take(i) =~= s.take(i));
        lemma_default_source_prefix(s.drop_last(), i, dst);
    } else {
        assert(s.take(i) =~= s);
    }
}

proof fn lemma_interface_of_prefix(s: Seq<Interface>, i: int, src: Ipv4Addr)
    requires
        0 <= i <= s.len(),
        interface_of(s.take(i), src) is Some,
    ensures
        interface_of(s, src) == interface_of(s.take(i), src),
    decreases s.len(),
{
    if i < s.len() {
        assert(s.drop_last().take(i) =~= s.take(i));
        lemma_interface_of_prefix(s.drop_last(), i, src);
    } else {
        assert(s.take(i) =~= s);
    }
}

/// The source address for probes to `dst`: `src` when given; else the
/// first address, on a usable interface, whose network holds `dst`; else
/// the first address of the first usable interface that is not a loopback.
pub fn find_source_ipv4(ifs: &Vec<Interface>, src: Option<Ipv4Addr>, dst: Ipv4Addr) -> (r: Option<Ipv4Addr>)
    ensures
        r == source_for(ifs@, src, dst),
{
    if src.is_some() {
        return src;
    }
    let mut i: usize = 0;
    assert(ifs@.take(0) =~= Seq::<Interface>::empty());
    while i < ifs.len()
        invariant
            i <= ifs@.len(),
            src is None,
            subnet_source(ifs@.take(i as int), dst) is None,
        decreases ifs@.len() - i,
    {
        assert(ifs@.take(i as int + 1).drop_last() =~= ifs@.take(i as int));
        assert(ifs@.take(i as int + 1).last() == ifs@[i as int]);
        if usable_for(&ifs[i], dst) {
            if let Some(a) = find_in_nets(&ifs[i].ips, dst) {
                proof {
                    lemma_subnet_source_prefix(ifs@, i as int + 1, dst);
                }
                return Some(a);
            }
        }
        i = i + 1;
    }
    assert(ifs@.take(i as int) =~= ifs@);
    let mut i: usize = 0;
    while i < ifs.len()
        invariant
            i <= ifs@.len(),
            src is None,
            subnet_source(ifs@, dst) is None,
            default_source(ifs@.take(i as int), dst) is None,
        decreases ifs@.len() - i,
    {
        assert(ifs@.take(i as int + 1).drop_last() =~= ifs@.take(i as int));
        assert(ifs@.take(i as int + 1).last() == ifs@[i as int]);
        let it = &ifs[i];
        if usable_for(it, dst) && !it.is_loopback && it.ips.len() > 0 {
            proof {
                lemma_default_source_prefix(ifs@, i as int + 1, dst);
            }
            return Some(it.ips[0].addr);
        }
        i = i + 1;
    }
    assert(ifs@.take(i as int) =~= ifs@);
    None
}

/// The index of the first interface that carries address `src`.
pub fn find_interface_by_ipv4(ifs: &Vec<Interface>, src: Ipv4Addr) -> (r: Option<usize>)
    ensures
        match r {
            Some(i) => interface_of(ifs@, src) == Some(i as int),
            None => interface_of(ifs@, src) is None,
        },
{
    let mut i: usize = 0;
    assert(ifs@.take(0) =~= Seq::<Interface>::empty());
    while i < ifs.len()
        invariant
            i <= ifs@.len(),
            interface_of(ifs@.take(i as int), src) is None,
        decreases ifs@.len() - i,
    {
        let ghost pre = ifs@.take(i as int + 1);
        assert(pre.drop_last() =~= ifs@.take(i as int));
        assert(pre.last() == ifs@[i as int]);
        let nets = &ifs[i].ips;
        let mut j: usize = 0;
        while j < nets.len()
            invariant
                i < ifs@.len(),
                pre == ifs@.take(i as int + 1),
                pre.last() == ifs@[i as int],
                nets@ == ifs@[i as int].ips@,
                interface_of(ifs@.take(i as int), src) is None,
                pre.drop_last() == ifs@.take(i as int),
                j <= nets@.len(),
                forall|k: int| 0 <= k < j ==> (#[trigger] nets@[k]).addr != src,
            decreases nets@.len() - j,
        {
            if nets[j].addr == src {
                assert(pre.last().ips@[j as int].addr == src);
                proof {
                    lemma_interface_of_prefix(ifs@, i as int + 1, src);
                }
                return Some(i);
            }
            j = j + 1;
        }
        assert(!exists|k: int| 0 <= k < pre.last().ips@.len() && (#[trigger] pre.last().ips@[k]).addr == src);
        i = i + 1;
    }
    assert(ifs@.take(i as int) =~= ifs@);
    None
}

/// The interface, source address and source hardware address of probes to
/// `dst`, or the lookup that failed.
pub open spec fn route_for(ifs: Seq<Interface>, src: Option<Ipv4Addr>, dst: Ipv4Addr) -> Result<(int, Ipv4Addr, MacAddr), ScanError> {
    match source_for(ifs, src, dst) {
        None => Err(ScanError::CannotFindSourceAddress),
        Some(s) => match interface_of(ifs, s) {
            None => Err(ScanError::CannotFindInterface),
            Some(i) => match ifs[i].mac {
                None => Err(ScanError::CannotFindMacAddress),
                Some(m) => Ok((i, s, m)),
            },
        },
    }
}

proof fn lemma_interface_of_bounds(s: Seq<Interface>, src: Ipv4Addr)
    ensures
        interface_of(s, src) matches Some(i) ==> 0 <= i < s.len(),
    decreases s.len(),
{
    if s.len() > 0 {
        lemma_interface_of_bounds(s.drop_last(), src);
    }
}

/// Resolves the interface, source address and source hardware address for
/// probes to `dst`.
pub fn resolve_route(ifs: &Vec<Interface>, src: Option<Ipv4Addr>, dst: Ipv4Addr) -> (r: Result<(usize, Ipv4Addr, MacAddr), ScanError>)
    ensures
        match r {
            Ok((i, s, m)) => route_for(ifs@, src, dst) == Ok::<(int, Ipv4Addr, MacAddr), ScanError>((i as int, s, m)),
            Err(e) => route_for(ifs@, src, dst) == Err::<(int, Ipv4Addr, MacAddr), ScanError>(e),
        },
{
    let s = match find_source_ipv4(ifs, src, dst) {
        None => return Err(ScanError::CannotFindSourceAddress),
        Some(s) => s,
    };
    let i = match find_interface_by_ipv4(ifs, s) {
        None => return Err(ScanError::CannotFindInterface),
        Some(i) => i,
    };
    proof {
        lemma_interface_of_bounds(ifs@, s);
    }
    match ifs[i].mac {
        None => Err(ScanError::CannotFindMacAddress),
        Some(m) => Ok((i, s, m)),
    }
}

/// Whether an IPv6 address is link-local (fe80::/10).
pub open spec fn is_link_local6(a: Ipv6Addr) -> bool {
    a.0 as int / 0x40_0000_0000_0000_0000_0000_0000_0000 == 0x3fa
}

/// Whether an IPv6 address is the loopback address ::1.
pub open spec fn is_loopback6(a: Ipv6Addr) -> bool {
    a.0 == 1
}

/// Whether an interface may carry probes to IPv6 address `dst`.
pub open spec fn usable6(i: Interface, dst: Ipv6Addr) -> bool {
    i.is_up && (!i.is_loopback || is_loopback6(dst))
}

/// The first of `addrs` whose scope (link-local or not) is that of `dst`.
pub open spec fn scoped_source(addrs: Seq<Ipv6Addr>, dst: Ipv6Addr) -> Option<Ipv6Addr>
    decreases addrs.len(),
{
    if addrs.len() == 0 {
        None
    } else {
        match scoped_source(addrs.drop_last(), dst) {
            Some(a) => Some(a),
            None => if is_link_local6(addrs.last()) == is_link_local6(dst) {
                Some(addrs.last())
            } else {
                None
            },
        }
    }
}

/// The first address, on an interface usable for `dst`, of the scope of
/// `dst`.
pub open spec fn source6_scan(ifs: Seq<Interface>, dst: Ipv6Addr) -> Option<Ipv6Addr>
    decreases ifs.len(),
{
    if ifs.len() == 0 {
        None
    } else {
        match source6_scan(ifs.drop_last(), dst) {
            Some(a) => Some(a),
            None => if usable6(ifs.last(), dst) {
                scoped_source(ifs.last().ips6@, dst)
            } else {
                None
            },
        }
    }
}

/// The IPv6 source address for probes to `dst`: the one given, else the
/// first address of the right scope on a usable interface.
pub open spec fn source6_for(ifs: Seq<Interface>, src: Option<Ipv6Addr>, dst: Ipv6Addr) -> Option<Ipv6Addr> {
    match src {
        Some(s) => Some(s),
        None => source6_scan(ifs, dst),
    }
}

fn link_local6(a: Ipv6Addr) -> (r: bool)
    ensures
        r == is_link_local6(a),
{
    a.0 / 0x40_0000_0000_0000_0000_0000_0000_0000 == 0x3fa
}

fn find_scoped(addrs: &Vec<Ipv6Addr>, dst: Ipv6Addr) -> (r: Option<Ipv6Addr>)
    ensures
        r == scoped_source(addrs@, dst),
{
    let mut i: usize = 0;
    assert(addrs@.take(0) =~= Seq::<Ipv6Addr>::empty());
    while i < addrs.len()
        invariant
            i <= addrs@.len(),
            scoped_source(addrs@.take(i as int), dst) is None,
        decreases addrs@.len() - i,
    {
        assert(addrs@.take(i as int + 1).drop_last() =~= addrs@.take(i as int));
        if link_local6(addrs[i]) == link_local6(dst) {
            proof {
                lemma_scoped_source_prefix(addrs@, i as int + 1, dst);
            }
            return Some(addrs[i]);
        }
        i = i + 1;
    }
    assert(addrs@.take(i as int) =~= addrs@);
    None
}

proof fn lemma_scoped_source_prefix(s: Seq<Ipv6Addr>, i: int, dst: Ipv6Addr)
    requires
        0 <= i <= s.len(),
        scoped_source(s.take(i), dst) is Some,
    ensures
        scoped_source(s, dst) == scoped_source(s.take(i), dst),
    decreases s.len(),
{
    if i < s.len() {
        assert(s.drop_last().take(i) =~= s.take(i));
        lemma_scoped_source_prefix(s.drop_last(), i, dst);
    } else {
        assert(s.take(i) =~= s);
    }
}

proof fn lemma_source6_scan_prefix(s: Seq<Interface>, i: int, dst: Ipv6Addr)
    requires
        0 <= i <= s.len(),
        source6_scan(s.take(i), dst) is Some,
    ensures
        source6_scan(s, dst) == source6_scan(s.take(i), dst),
    decreases s.len(),
{
    if i < s.len() {
        assert(s.drop_last().take(i) =~= s.take(i));
        lemma_source6_scan_prefix(s.drop_last(), i, dst);
    } else {
        assert(s.take(i) =~= s);
    }
}

/// The IPv6 source address for probes to `dst`.
pub fn find_source_ipv6(ifs: &Vec<Interface>, src: Option<Ipv6Addr>, dst: Ipv6Addr) -> (r: Option<Ipv6Addr>)
    ensures
        r == source6_for(ifs@, src, dst),
{
    if src.is_some() {
        return src;
    }
    let mut i: usize = 0;
    assert(ifs@.take(0) =~= Seq::<Interface>::empty());
    while i < ifs.len()
        invariant
            i <= ifs@.len(),
            src is None,
            source6_scan(ifs@.take(i as int), dst) is None,
        decreases ifs@.len() - i,
    {
        assert(ifs@.take(i as int + 1).drop_last() =~= ifs@.take(i as int));
        assert(ifs@.take(i as int + 1).last() == ifs@[i as int]);
        let it = &ifs[i];
        if it.is_up && (!it.is_loopback || dst.0 == 1) {
            if let Some(a) = find_scoped(&it.ips6, dst) {
                proof {
                    lemma_source6_scan_prefix(ifs@, i as int + 1, dst);
                }
                return Some(a);
            }
        }
        i = i + 1;
    }
    assert(ifs@.take(i as int) =~= ifs@);
    None
}

/// The index of the first interface that carries IPv6 address `src`.
pub open spec fn interface6_of(ifs: Seq<Interface>, src: Ipv6Addr) -> Option<int>
    decreases ifs.len(),
{
    if ifs.len() == 0 {
        None
    } else {
        match interface6_of(ifs.drop_last(), src) {
            Some(i) => Some(i),
            None => if ifs.last().ips6@.contains(src) {
                Some(ifs.len() - 1)
            } else {
                None
            },
        }
    }
}

proof fn lemma_interface6_of_prefix(s: Seq<Interface>, i: int, src: Ipv6Addr)
    requires
        0 <= i <= s.len(),
        interface6_of(s.take(i), src) is Some,
    ensures
        interface6_of(s, src) == interface6_of(s.take(i), src),
    decreases s.len(),
{
    if i < s.len() {
        assert(s.drop_last().take(i) =~= s.take(i));
        lemma_interface6_of_prefix(s.drop_last(), i, src);
    } else {
        assert(s.take(i) =~= s);
    }
}

/// The index of the first interface that carries IPv6 address `src`.
pub fn find_interface_by_ipv6(ifs: &Vec<Interface>, src: Ipv6Addr) -> (r: Option<usize>)
    ensures
        match r {
            Some(i) => interface6_of(ifs@, src) == Some(i as int),
            None => interface6_of(ifs@, src) is None,
        },
{
    let mut i: usize = 0;
    assert(ifs@.take(0) =~= Seq::<Interface>::empty());
    while i < ifs.len()
        invariant
            i <= ifs@.len(),
            interface6_of(ifs@.take(i as int), src) is None,
        decreases ifs@.len() - i,
    {
        let ghost pre = ifs@.take(i as int + 1);
        assert(pre.drop_last() =~= ifs@.take(i as int));
        assert(pre.last() == ifs@[i as int]);
        let addrs = &ifs[i].ips6;
        let mut j: usize = 0;
        while j < addrs.len()
            invariant
                i < ifs@.len(),
                pre == ifs@.take(i as int + 1),
                pre.last() == ifs@[i as int],
                addrs@ == ifs@[i as int].ips6@,
                interface6_of(ifs@.take(i as int), src) is None,
                pre.drop_last() == ifs@.take(i as int),
                j <= addrs@.len(),
                forall|k: int| 0 <= k < j ==> addrs@[k] != src,
            decreases addrs@.len() - j,
        {
            if addrs[j] == src {
                assert(pre.last().ips6@[j as int] == src);
                assert(pre.last().ips6@.contains(src));
                proof {
                    lemma_interface6_of_prefix(ifs@, i as int + 1, src);
                }
                return Some(i);
            }
            j = j + 1;
        }
        assert(!pre.last().ips6@.contains(src));
        i = i + 1;
    }
    assert(ifs@.take(i as int) =~= ifs@);
    None
}

} // verus!
