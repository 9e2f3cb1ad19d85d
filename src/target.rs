//! Scan targets and the planning of a campaign: work items, source ports,
//! pool width and timeouts.
use vstd::prelude::*;
use crate::addr::{Ipv4Addr, Ipv6Addr};
use crate::error::ScanError;
use crate::status::ScanMethod;
use crate::addr::{IpAddr, MacAddr};
use crate::results::{
    EntryView, PortOutcome, aggregate_ports, distinct_probes, first_error, lemma_merged_ports_exact,
    merged_ports, oks, TcpUdpScanResults,
};
use crate::status::TargetScanStatus;
use crate::iface::{
    Interface, find_source_ipv4, find_source_ipv6, resolve_route, route_for, source6_for, source_for,
};

verus! {

/// A host and the ports to probe on it; `A` is its address family.
#[derive(Debug)]
pub struct HostOf<A> {
    pub addr: A,
    pub ports: Vec<u16>,
}

/// An IPv4 host and the ports to probe on it.
pub type Host = HostOf<Ipv4Addr>;

/// An IPv6 host and the ports to probe on it.
pub type Host6 = HostOf<Ipv6Addr>;

/// The address family of a target.
#[derive(Debug, Clone, Copy, PartialEq, Eq, Structural)]
pub enum TargetType {
    Ipv4,
    Ipv6,
}

/// The hosts of one campaign; immutable once built.
#[derive(Debug)]
pub struct Target {
    pub target_type: TargetType,
    pub hosts: Vec<Host>,
    pub hosts6: Vec<Host6>,
}

impl<A> HostOf<A> {
    /// A host with the given ports, or none.
    pub fn new(addr: A, ports: Option<Vec<u16>>) -> (r: HostOf<A>)
        ensures
            r.addr == addr,
            r.ports@ == match ports {
                Some(p) => p@,
                None => Seq::<u16>::empty(),
            },
    {
        match ports {
            Some(p) => HostOf { addr, ports: p },
            None => HostOf { addr, ports: Vec::new() },
        }
    }
}

impl Target {
    /// An IPv4 target.
    pub fn new(hosts: Vec<Host>) -> (r: Target)
        ensures
            r.target_type == TargetType::Ipv4,
            r.hosts@ == hosts@,
            r.hosts6@.len() == 0,
    {
        Target { target_type: TargetType::Ipv4, hosts, hosts6: Vec::new() }
    }

    /// An IPv6 target.
    pub fn new6(hosts6: Vec<Host6>) -> (r: Target)
        ensures
            r.target_type == TargetType::Ipv6,
            r.hosts@.len() == 0,
            r.hosts6@ == hosts6@,
    {
        Target { target_type: TargetType::Ipv6, hosts: Vec::new(), hosts6 }
    }
}

/// One probe to run: source address and port, destination and port; `A`
/// is the address family.
#[derive(Debug, Clone, Copy, PartialEq, Eq, Structural)]
pub struct Probe<A> {
    pub src: A,
    pub dst: A,
    pub dst_port: u16,
    pub src_port: u16,
}

/// One IPv4 probe to run.
pub type WorkItem = Probe<Ipv4Addr>;

/// One IPv6 probe to run.
pub type WorkItem6 = Probe<Ipv6Addr>;

/// An address that probes carry, with an equality test that planning uses
/// and the address of either family that results are keyed by.
pub trait ProbeAddr: Copy {
    spec fn ip_of(&self) -> IpAddr;

    fn same_as(&self, other: &Self) -> (r: bool)
        ensures
            r == (*self == *other),
    ;

    fn ip(&self) -> (r: IpAddr)
        ensures
            r == self.ip_of(),
    ;
}

impl ProbeAddr for Ipv4Addr {
    open spec fn ip_of(&self) -> IpAddr {
        IpAddr::V4(*self)
    }

    fn same_as(&self, other: &Self) -> (r: bool) {
        self.0 == other.0
    }

    fn ip(&self) -> (r: IpAddr) {
        IpAddr::V4(*self)
    }
}

impl ProbeAddr for Ipv6Addr {
    open spec fn ip_of(&self) -> IpAddr {
        IpAddr::V6(*self)
    }

    fn same_as(&self, other: &Self) -> (r: bool) {
        self.0 == other.0
    }

    fn ip(&self) -> (r: IpAddr) {
        IpAddr::V6(*self)
    }
}

/// The probes of one host, all from source `src`, in port order; their
/// source ports are drawn later, one per probe, and read 0 until then.
pub open spec fn host_items<A>(src: A, addr: A, ports: Seq<u16>) -> Seq<Probe<A>> {
    ports.map_values(|p: u16| Probe { src, dst: addr, dst_port: p, src_port: 0 })
}

/// The probes of a campaign: the cross product of hosts and their ports,
/// host by host, host `i` probing from address `srcs[i]`.
pub open spec fn work_items<A>(hosts: Seq<HostOf<A>>, srcs: Seq<A>) -> Seq<Probe<A>>
    decreases hosts.len(),
{
    if hosts.len() == 0 {
        Seq::empty()
    } else {
        work_items(hosts.drop_last(), srcs) + host_items(
            srcs[hosts.len() - 1],
            hosts.last().addr,
            hosts.last().ports@,
        )
    }
}

/// Whether `items` already holds a probe of the (host, port) pair of `w`.
pub open spec fn pair_planned<A>(items: Seq<Probe<A>>, w: Probe<A>) -> bool {
    exists|i: int| 0 <= i < items.len() && (#[trigger] items[i]).dst == w.dst && items[i].dst_port == w.dst_port
}

/// The probes of `items`, each (host, port) pair kept at its first
/// occurrence only.
pub open spec fn first_probes<A>(items: Seq<Probe<A>>) -> Seq<Probe<A>>
    decreases items.len(),
{
    if items.len() == 0 {
        Seq::empty()
    } else {
        let prev = first_probes(items.drop_last());
        if pair_planned(prev, items.last()) {
            prev
        } else {
            prev.push(items.last())
        }
    }
}

/// Whether no two probes share a (host, port) pair.
pub open spec fn pairs_distinct<A>(items: Seq<Probe<A>>) -> bool {
    forall|i: int, j: int|
        0 <= i < items.len() && 0 <= j < items.len() && i != j ==> !((#[trigger] items[i]).dst
            == (#[trigger] items[j]).dst && items[i].dst_port == items[j].dst_port)
}

/// At most one probe per (host, port) pair is planned, and every pair of the
/// cross product is.
pub proof fn lemma_first_probes<A>(items: Seq<Probe<A>>)
    ensures
        pairs_distinct(first_probes(items)),
        forall|w: Probe<A>| pair_planned(items, w) <==> pair_planned(first_probes(items), w),
    decreases items.len(),
{
    if items.len() > 0 {
        let t = items.drop_last();
        let prev = first_probes(t);
        let last = items.last();
        lemma_first_probes(t);
        assert forall|w: Probe<A>| pair_planned(items, w) <==> pair_planned(first_probes(items), w) by {
            assert(pair_planned(t, w) <==> pair_planned(prev, w));
            if pair_planned(items, w) {
                let i = choose|i: int| 0 <= i < items.len() && (#[trigger] items[i]).dst == w.dst && items[i].dst_port == w.dst_port;
                if i < t.len() {
                    assert(t[i] == items[i]);
                    assert(pair_planned(t, w));
                    if !pair_planned(prev, last) {
                        let k = choose|k: int| 0 <= k < prev.len() && (#[trigger] prev[k]).dst == w.dst && prev[k].dst_port == w.dst_port;
                        assert(first_probes(items)[k] == prev[k]);
                    }
                } else {
                    if !pair_planned(prev, last) {
                        assert(first_probes(items)[prev.len() as int] == last);
                    } else {
                        let k = choose|k: int| 0 <= k < prev.len() && (#[trigger] prev[k]).dst == last.dst && prev[k].dst_port == last.dst_port;
                        assert(prev[k].dst == w.dst);
                    }
                }
            }
            if pair_planned(first_probes(items), w) {
                let f = first_probes(items);
                let k = choose|k: int| 0 <= k < f.len() && (#[trigger] f[k]).dst == w.dst && f[k].dst_port == w.dst_port;
                if k < prev.len() {
                    assert(f[k] == prev[k]);
                    assert(pair_planned(prev, w));
                    let i = choose|i: int| 0 <= i < t.len() && (#[trigger] t[i]).dst == w.dst && t[i].dst_port == w.dst_port;
                    assert(items[i] == t[i]);
                } else {
                    assert(f[k] == last);
                    assert(items[items.len() - 1] == last);
                }
            }
        }
        if !pair_planned(prev, last) {
            let f = first_probes(items);
            assert forall|i: int, j: int| 0 <= i < f.len() && 0 <= j < f.len() && i != j implies !((#[trigger] f[i]).dst
                == (#[trigger] f[j]).dst && f[i].dst_port == f[j].dst_port) by {
                if i < prev.len() && j < prev.len() {
                    assert(f[i] == prev[i] && f[j] == prev[j]);
                } else if i < prev.len() {
                    assert(f[i] == prev[i]);
                } else {
                    assert(f[j] == prev[j]);
                }
            }
        }
    }
}

/// Keeps the first probe of each (host, port) pair.
pub fn dedup_probes<A: ProbeAddr>(items: &Vec<Probe<A>>) -> (r: Vec<Probe<A>>)
    ensures
        r@ == first_probes(items@),
{
    let mut out: Vec<Probe<A>> = Vec::new();
    let mut i: usize = 0;
    assert(items@.take(0) =~= Seq::<Probe<A>>::empty());
    while i < items.len()
        invariant
            i <= items@.len(),
            out@ == first_probes(items@.take(i as int)),
        decreases items@.len() - i,
    {
        assert(items@.take(i as int + 1).drop_last() =~= items@.take(i as int));
        assert(items@.take(i as int + 1).last() == items@[i as int]);
        let w = items[i];
        let mut j: usize = 0;
        let mut seen = false;
        while j < out.len()
            invariant
                j <= out@.len(),
                seen == (exists|k: int| 0 <= k < j && (#[trigger] out@[k]).dst == w.dst && out@[k].dst_port == w.dst_port),
            decreases out@.len() - j,
        {
            if out[j].dst.same_as(&w.dst) && out[j].dst_port == w.dst_port {
                seen = true;
            }
            j = j + 1;
        }
        if !seen {
            out.push(w);
        }
        i = i + 1;
    }
    assert(items@.take(i as int) =~= items@);
    out
}

/// Lists the probes of a campaign; host `i` probes from address `srcs[i]`.
pub fn plan_probes<A: Copy>(hosts: &Vec<HostOf<A>>, srcs: &Vec<A>) -> (r: Vec<Probe<A>>)
    requires
        srcs@.len() == hosts@.len(),
    ensures
        r@ == work_items(hosts@, srcs@),
{
    let mut out: Vec<Probe<A>> = Vec::new();
    let mut i: usize = 0;
    assert(hosts@.take(0) =~= Seq::<HostOf<A>>::empty());
    while i < hosts.len()
        invariant
            i <= hosts@.len(),
            srcs@.len() == hosts@.len(),
            out@ == work_items(hosts@.take(i as int), srcs@),
        decreases hosts@.len() - i,
    {
        let h = &hosts[i];
        let src = srcs[i];
        let ghost start = out@;
        let mut j: usize = 0;
        while j < h.ports.len()
            invariant
                j <= h.ports@.len(),
                out@ == start + host_items(src, h.addr, h.ports@.take(j as int)),
            decreases h.ports@.len() - j,
        {
            out.push(Probe { src, dst: h.addr, dst_port: h.ports[j], src_port: 0 });
            assert(host_items(src, h.addr, h.ports@.take(j as int + 1)) =~= host_items(
                src,
                h.addr,
                h.ports@.take(j as int),
            ).push(Probe { src, dst: h.addr, dst_port: h.ports@[j as int], src_port: 0 }));
            assert(out@ =~= start + host_items(src, h.addr, h.ports@.take(j as int + 1)));
            j = j + 1;
        }
        assert(h.ports@.take(j as int) =~= h.ports@);
        assert(hosts@.take(i as int + 1).drop_last() =~= hosts@.take(i as int));
        assert(hosts@.take(i as int + 1).last() == hosts@[i as int]);
        i = i + 1;
    }
    assert(hosts@.take(i as int) =~= hosts@);
    out
}

/// A target without hosts has no probe to run, and merging no report
/// gives an empty result map.
pub proof fn lemma_empty_target_no_probes(srcs: Seq<Ipv4Addr>)
    ensures
        first_probes(work_items(Seq::<Host>::empty(), srcs)) == Seq::<WorkItem>::empty(),
        merged_ports(Seq::<PortOutcome>::empty()) == Map::<IpAddr, EntryView<u16>>::empty(),
{
}

/// Whether a method's options make a scan: an idle scan needs a zombie
/// and an IP protocol scan a protocol.
pub open spec fn options_ok(m: ScanMethod, zombie: Option<(Ipv4Addr, u16)>, protocol: Option<u8>) -> bool {
    (m == ScanMethod::Idle ==> zombie is Some) && (m == ScanMethod::IpProcotol ==> protocol is Some)
}

/// Checks a scan's options before any probe is planned.
pub fn check_options(m: ScanMethod, zombie: Option<(Ipv4Addr, u16)>, protocol: Option<u8>) -> (r: Result<(), ScanError>)
    ensures
        r is Ok <==> options_ok(m, zombie, protocol),
        r is Err ==> r == Err::<(), ScanError>(ScanError::InvalidConfiguration),
{
    let idle_ok = match m {
        ScanMethod::Idle => zombie.is_some(),
        _ => true,
    };
    let protocol_ok = match m {
        ScanMethod::IpProcotol => protocol.is_some(),
        _ => true,
    };
    if idle_ok && protocol_ok {
        Ok(())
    } else {
        Err(ScanError::InvalidConfiguration)
    }
}

/// The widest pool chosen when the caller leaves the width to the library.
pub const MAX_AUTO_THREADS: usize = 256;

/// The pool width for a campaign of `tasks` probes: `threads` when given,
/// else one worker per probe up to the cap, and at least one.
pub open spec fn pool_width(threads: usize, tasks: usize) -> usize {
    if threads > 0 {
        threads
    } else if tasks == 0 {
        1
    } else if tasks > MAX_AUTO_THREADS {
        MAX_AUTO_THREADS
    } else {
        tasks
    }
}

/// The worker-pool width for a campaign.
pub fn pool_size(threads: usize, tasks: usize) -> (r: usize)
    ensures
        r == pool_width(threads, tasks),
{
    if threads > 0 {
        threads
    } else if tasks == 0 {
        1
    } else if tasks > MAX_AUTO_THREADS {
        MAX_AUTO_THREADS
    } else {
        tasks
    }
}

/// A width of zero sizes the pool from the work, between one and the cap;
/// a width of one runs the probes one after another.
pub proof fn lemma_pool_width(threads: usize, tasks: usize)
    ensures
        1 <= pool_width(threads, tasks),
        threads == 0 ==> pool_width(threads, tasks) <= MAX_AUTO_THREADS,
        threads == 0 && 0 < tasks <= MAX_AUTO_THREADS ==> pool_width(threads, tasks) == tasks,
        threads == 1 ==> pool_width(threads, tasks) == 1,
{
}

/// The per-probe timeout used when the caller gives none: three seconds,
/// in microseconds.
pub const DEFAULT_TIMEOUT_US: u64 = 3_000_000;

/// The per-probe timeout in microseconds.
pub fn probe_timeout(timeout_us: Option<u64>) -> (r: u64)
    ensures
        r == match timeout_us {
            Some(t) => t,
            None => DEFAULT_TIMEOUT_US,
        },
{
    match timeout_us {
        Some(t) => t,
        None => DEFAULT_TIMEOUT_US,
    }
}

/// The lowest port of the range that random source ports come from.
pub const EPHEMERAL_PORT_MIN: u16 = 49152;

/// Relies on `rand::random`: a value drawn from the thread-local generator;
/// nothing is promised of it.
pub assume_specification<T>[ rand::random::<T> ]() -> T
    where
        rand::distributions::Standard: rand::distributions::Distribution<T>,
;

/// The source port that a random 16-bit draw `x` selects in 49152 to
/// 65535.
pub fn port_from_draw(x: u16) -> (r: u16)
    ensures
        r == EPHEMERAL_PORT_MIN + x % 16384,
{
    EPHEMERAL_PORT_MIN + x % 16384
}

/// A random source port in 49152 to 65535.
pub fn random_port() -> (r: u16)
    ensures
        EPHEMERAL_PORT_MIN <= r,
{
    port_from_draw(rand::random::<u16>())
}

/// Whether `r` is `items` with a source port set on each probe: `src_port`
/// when given, else one drawn for that probe alone.
pub open spec fn ports_assigned<A>(items: Seq<Probe<A>>, r: Seq<Probe<A>>, src_port: Option<u16>) -> bool {
    &&& r.len() == items.len()
    &&& forall|i: int| 0 <= i < items.len() ==> {
        &&& (#[trigger] r[i]).src == items[i].src
        &&& r[i].dst == items[i].dst
        &&& r[i].dst_port == items[i].dst_port
        &&& match src_port {
            Some(p) => r[i].src_port == p,
            None => EPHEMERAL_PORT_MIN <= r[i].src_port,
        }
    }
}

/// Sets the source port of every probe: the one given, else a random one
/// drawn per probe.
pub fn assign_source_ports<A: Copy>(items: &Vec<Probe<A>>, src_port: Option<u16>) -> (r: Vec<Probe<A>>)
    ensures
        ports_assigned(items@, r@, src_port),
{
    let mut out: Vec<Probe<A>> = Vec::new();
    let mut i: usize = 0;
    while i < items.len()
        invariant
            i <= items@.len(),
            ports_assigned(items@.take(i as int), out@, src_port),
        decreases items@.len() - i,
    {
        let w = items[i];
        let p = match src_port {
            Some(p) => p,
            None => random_port(),
        };
        out.push(Probe { src_port: p, ..w });
        assert(ports_assigned(items@.take(i as int + 1), out@, src_port)) by {
            assert forall|k: int| 0 <= k < i + 1 implies items@.take(i as int + 1)[k] == items@[k] by {}
            assert forall|k: int| 0 <= k < i implies items@.take(i as int)[k] == items@[k] by {}
        }
        i = i + 1;
    }
    assert(items@.take(i as int) =~= items@);
    out
}

/// Once each (host, port) pair is planned once, no two probes of a campaign
/// share a (source address, source port, destination, destination port)
/// tuple, whatever source ports are drawn: a collision cannot arise.
pub proof fn lemma_probe_tuples_distinct<A>(items: Seq<Probe<A>>, r: Seq<Probe<A>>, src_port: Option<u16>)
    requires
        pairs_distinct(items),
        ports_assigned(items, r, src_port),
    ensures
        forall|i: int, j: int|
            0 <= i < r.len() && 0 <= j < r.len() && i != j ==> (#[trigger] r[i]) != (#[trigger] r[j]),
{
    assert forall|i: int, j: int| 0 <= i < r.len() && 0 <= j < r.len() && i != j implies (#[trigger] r[i]) != (#[trigger] r[j]) by {
        assert(!(items[i].dst == items[j].dst && items[i].dst_port == items[j].dst_port));
    }
}

/// The source address of each host's probes, or the error of the first
/// host that has none.
pub open spec fn sources_ok(ifs: Seq<Interface>, hosts: Seq<Host>, src: Option<Ipv4Addr>) -> bool {
    forall|i: int| 0 <= i < hosts.len() ==> (#[trigger] source_for(ifs, src, hosts[i].addr)) is Some
}

/// Finds the source address of each host's probes.
pub fn host_sources(ifs: &Vec<Interface>, hosts: &Vec<Host>, src: Option<Ipv4Addr>) -> (r: Result<Vec<Ipv4Addr>, ScanError>)
    ensures
        match r {
            Ok(v) => sources_ok(ifs@, hosts@, src) && v@.len() == hosts@.len() && forall|i: int|
                0 <= i < hosts@.len() ==> source_for(ifs@, src, hosts@[i].addr) == Some(
                    #[trigger] v@[i],
                ),
            Err(e) => !sources_ok(ifs@, hosts@, src) && e == ScanError::CannotFindSourceAddress,
        },
{
    let mut out: Vec<Ipv4Addr> = Vec::new();
    let mut i: usize = 0;
    while i < hosts.len()
        invariant
            i <= hosts@.len(),
            out@.len() == i,
            forall|k: int| 0 <= k < i ==> source_for(ifs@, src, hosts@[k].addr) == Some(
                #[trigger] out@[k],
            ),
        decreases hosts@.len() - i,
    {
        match find_source_ipv4(ifs, src, hosts[i].addr) {
            Some(a) => out.push(a),
            None => {
                assert(source_for(ifs@, src, hosts@[i as int].addr) is None);
                return Err(ScanError::CannotFindSourceAddress);
            },
        }
        i = i + 1;
    }
    assert(sources_ok(ifs@, hosts@, src)) by {
        assert forall|k: int| 0 <= k < hosts@.len() implies (#[trigger] source_for(ifs@, src, hosts@[k].addr)) is Some by {
            assert(source_for(ifs@, src, hosts@[k].addr) == Some(out@[k]));
        }
    }
    Ok(out)
}

/// Plans a campaign: one probe per (host, port) pair, with its source
/// address and port. The source port of a probe is `src_port` when given,
/// else one of 49152 to 65535 drawn for that probe. Fails when some host
/// has no source address.
pub fn plan_scan(ifs: &Vec<Interface>, hosts: &Vec<Host>, src: Option<Ipv4Addr>, src_port: Option<u16>) -> (r: Result<Vec<WorkItem>, ScanError>)
    ensures
        match r {
            Ok(v) => sources_ok(ifs@, hosts@, src) && (exists|srcs: Seq<Ipv4Addr>|
                {
                    &&& srcs.len() == hosts@.len()
                    &&& forall|i: int| 0 <= i < hosts@.len() ==> source_for(ifs@, src, hosts@[i].addr)
                        == Some(#[trigger] srcs[i])
                    &&& ports_assigned(first_probes(work_items(hosts@, srcs)), v@, src_port)
                }),
            Err(e) => !sources_ok(ifs@, hosts@, src) && e == ScanError::CannotFindSourceAddress,
        },
{
    let srcs = host_sources(ifs, hosts, src)?;
    let all = plan_probes(hosts, &srcs);
    let items = dedup_probes(&all);
    Ok(assign_source_ports(&items, src_port))
}

/// One ARP probe to run: whom to ask, from which address, hardware address
/// and interface (an index into the interface list).
#[derive(Debug, Clone, Copy, PartialEq, Eq, Structural)]
pub struct ArpWork {
    pub dst: Ipv4Addr,
    pub src: Ipv4Addr,
    pub src_mac: MacAddr,
    pub interface: usize,
}

/// The error of the first host whose route cannot be resolved, if any.
pub open spec fn first_route_error(ifs: Seq<Interface>, hosts: Seq<Host>, src: Option<Ipv4Addr>) -> Option<ScanError>
    decreases hosts.len(),
{
    if hosts.len() == 0 {
        None
    } else {
        match first_route_error(ifs, hosts.drop_last(), src) {
            Some(e) => Some(e),
            None => match route_for(ifs, src, hosts.last().addr) {
                Err(e) => Some(e),
                Ok(_) => None,
            },
        }
    }
}

proof fn lemma_first_route_error_prefix(ifs: Seq<Interface>, hosts: Seq<Host>, src: Option<Ipv4Addr>, i: int)
    requires
        0 <= i <= hosts.len(),
        first_route_error(ifs, hosts.take(i), src) is Some,
    ensures
        first_route_error(ifs, hosts, src) == first_route_error(ifs, hosts.take(i), src),
    decreases hosts.len(),
{
    if i < hosts.len() {
        assert(hosts.drop_last().take(i) =~= hosts.take(i));
        lemma_first_route_error_prefix(ifs, hosts.drop_last(), src, i);
    } else {
        assert(hosts.take(i) =~= hosts);
    }
}

/// Plans an ARP scan: one probe per host, in host order, each with the
/// route that the interface list gives. Fails for an IPv6 target, and with
/// the first host's lookup error where a route cannot be resolved.
pub fn plan_arp_scan(ifs: &Vec<Interface>, target: &Target, src: Option<Ipv4Addr>) -> (r: Result<Vec<ArpWork>, ScanError>)
    ensures
        target.target_type != TargetType::Ipv4 ==> r == Err::<Vec<ArpWork>, ScanError>(
            ScanError::NotSupportedIpTypeForArpScan,
        ),
        target.target_type == TargetType::Ipv4 ==> match first_route_error(ifs@, target.hosts@, src) {
            Some(e) => r == Err::<Vec<ArpWork>, ScanError>(e),
            None => r is Ok && r->Ok_0@.len() == target.hosts@.len() && forall|i: int|
                0 <= i < target.hosts@.len() ==> {
                    let w = #[trigger] r->Ok_0@[i];
                    &&& w.dst == target.hosts@[i].addr
                    &&& route_for(ifs@, src, w.dst) == Ok::<(int, Ipv4Addr, MacAddr), ScanError>(
                        (w.interface as int, w.src, w.src_mac),
                    )
                },
        },
{
    if target.target_type != TargetType::Ipv4 {
        return Err(ScanError::NotSupportedIpTypeForArpScan);
    }
    let hosts = &target.hosts;
    let mut out: Vec<ArpWork> = Vec::new();
    let mut i: usize = 0;
    assert(hosts@.take(0) =~= Seq::<Host>::empty());
    while i < hosts.len()
        invariant
            i <= hosts@.len(),
            target.target_type == TargetType::Ipv4,
            hosts@ == target.hosts@,
            out@.len() == i,
            first_route_error(ifs@, hosts@.take(i as int), src) is None,
            forall|k: int| 0 <= k < i ==> {
                let w = #[trigger] out@[k];
                &&& w.dst == hosts@[k].addr
                &&& route_for(ifs@, src, w.dst) == Ok::<(int, Ipv4Addr, MacAddr), ScanError>(
                    (w.interface as int, w.src, w.src_mac),
                )
            },
        decreases hosts@.len() - i,
    {
        assert(hosts@.take(i as int + 1).drop_last() =~= hosts@.take(i as int));
        assert(hosts@.take(i as int + 1).last() == hosts@[i as int]);
        let dst = hosts[i].addr;
        match resolve_route(ifs, src, dst) {
            Ok((k, s, m)) => {
                out.push(ArpWork { dst, src: s, src_mac: m, interface: k });
            },
            Err(e) => {
                proof {
                    lemma_first_route_error_prefix(ifs@, hosts@, src, i as int + 1);
                }
                return Err(e);
            },
        }
        i = i + 1;
    }
    assert(hosts@.take(i as int) =~= hosts@);
    Ok(out)
}

/// Whether every IPv6 host has a source address.
pub open spec fn sources6_ok(ifs: Seq<Interface>, hosts: Seq<Host6>, src: Option<Ipv6Addr>) -> bool {
    forall|i: int| 0 <= i < hosts.len() ==> (#[trigger] source6_for(ifs, src, hosts[i].addr)) is Some
}

/// Finds the source address of each IPv6 host's probes.
pub fn host_sources6(ifs: &Vec<Interface>, hosts: &Vec<Host6>, src: Option<Ipv6Addr>) -> (r: Result<Vec<Ipv6Addr>, ScanError>)
    ensures
        match r {
            Ok(v) => sources6_ok(ifs@, hosts@, src) && v@.len() == hosts@.len() && forall|i: int|
                0 <= i < hosts@.len() ==> source6_for(ifs@, src, hosts@[i].addr) == Some(
                    #[trigger] v@[i],
                ),
            Err(e) => !sources6_ok(ifs@, hosts@, src) && e == ScanError::CannotFindSourceAddress,
        },
{
    let mut out: Vec<Ipv6Addr> = Vec::new();
    let mut i: usize = 0;
    while i < hosts.len()
        invariant
            i <= hosts@.len(),
            out@.len() == i,
            forall|k: int| 0 <= k < i ==> source6_for(ifs@, src, hosts@[k].addr) == Some(
                #[trigger] out@[k],
            ),
        decreases hosts@.len() - i,
    {
        match find_source_ipv6(ifs, src, hosts[i].addr) {
            Some(a) => out.push(a),
            None => {
                assert(source6_for(ifs@, src, hosts@[i as int].addr) is None);
                return Err(ScanError::CannotFindSourceAddress);
            },
        }
        i = i + 1;
    }
    assert(sources6_ok(ifs@, hosts@, src)) by {
        assert forall|k: int| 0 <= k < hosts@.len() implies (#[trigger] source6_for(ifs@, src, hosts@[k].addr)) is Some by {
            assert(source6_for(ifs@, src, hosts@[k].addr) == Some(out@[k]));
        }
    }
    Ok(out)
}

/// Plans an IPv6 campaign, as `plan_scan` does for IPv4.
pub fn plan_scan6(ifs: &Vec<Interface>, hosts: &Vec<Host6>, src: Option<Ipv6Addr>, src_port: Option<u16>) -> (r: Result<Vec<WorkItem6>, ScanError>)
    ensures
        match r {
            Ok(v) => sources6_ok(ifs@, hosts@, src) && (exists|srcs: Seq<Ipv6Addr>|
                {
                    &&& srcs.len() == hosts@.len()
                    &&& forall|i: int| 0 <= i < hosts@.len() ==> source6_for(ifs@, src, hosts@[i].addr)
                        == Some(#[trigger] srcs[i])
                    &&& ports_assigned(first_probes(work_items(hosts@, srcs)), v@, src_port)
                }),
            Err(e) => !sources6_ok(ifs@, hosts@, src) && e == ScanError::CannotFindSourceAddress,
        },
{
    let srcs = host_sources6(ifs, hosts, src)?;
    let all = plan_probes(hosts, &srcs);
    let items = dedup_probes(&all);
    Ok(assign_source_ports(&items, src_port))
}

/// What the pool hands back for one probe, in arrival order: the probe's
/// index in the plan and its verdict with round-trip time, or its error.
pub type Arrival = (usize, Result<(TargetScanStatus, Option<u64>), ScanError>);

/// The report that an arrival makes for its planned probe.
pub open spec fn arrival_report<A: ProbeAddr>(plan: Seq<Probe<A>>, a: Arrival) -> Result<PortOutcome, ScanError> {
    match a.1 {
        Ok(v) => Ok(
            PortOutcome { addr: plan[a.0 as int].dst.ip_of(), port: plan[a.0 as int].dst_port, status: v.0, rtt: v.1 },
        ),
        Err(e) => Err(e),
    }
}

/// The reports of a sequence of arrivals.
pub open spec fn arrival_reports<A: ProbeAddr>(plan: Seq<Probe<A>>, arrivals: Seq<Arrival>) -> Seq<Result<PortOutcome, ScanError>> {
    arrivals.map_values(|a: Arrival| arrival_report(plan, a))
}

/// Merges the arrivals of a port scan's probes, each credited to the probe
/// of the plan that its index names; the first error ends the merge.
pub fn collect_port_results<A: ProbeAddr>(plan: &Vec<Probe<A>>, arrivals: &Vec<Arrival>) -> (r: Result<TcpUdpScanResults, ScanError>)
    requires
        forall|k: int| 0 <= k < arrivals@.len() ==> (#[trigger] arrivals@[k]).0 < plan@.len(),
    ensures
        match first_error(arrival_reports(plan@, arrivals@)) {
            Some(e) => r == Err::<TcpUdpScanResults, ScanError>(e),
            None => r is Ok && r->Ok_0.view() == merged_ports(oks(arrival_reports(plan@, arrivals@))),
        },
{
    let mut reports: Vec<Result<PortOutcome, ScanError>> = Vec::new();
    let mut k: usize = 0;
    while k < arrivals.len()
        invariant
            k <= arrivals@.len(),
            forall|q: int| 0 <= q < arrivals@.len() ==> (#[trigger] arrivals@[q]).0 < plan@.len(),
            reports@ == arrival_reports(plan@, arrivals@.take(k as int)),
        decreases arrivals@.len() - k,
    {
        let a = &arrivals[k];
        let rep = match &a.1 {
            Ok(v) => {
                let w = plan[a.0];
                Ok(PortOutcome { addr: w.dst.ip(), port: w.dst_port, status: v.0, rtt: v.1 })
            },
            Err(e) => Err(*e),
        };
        reports.push(rep);
        assert(reports@ =~= arrival_reports(plan@, arrivals@.take(k as int + 1)));
        k = k + 1;
    }
    assert(arrivals@.take(k as int) =~= arrivals@);
    aggregate_ports(&reports)
}

/// Whether the arrivals name every probe of a plan of `n` probes exactly
/// once, each without error.
pub open spec fn complete_run(n: int, arrivals: Seq<Arrival>) -> bool {
    &&& arrivals.len() == n
    &&& forall|k: int| 0 <= k < n ==> (#[trigger] arrivals[k]).0 < n && arrivals[k].1 is Ok
    &&& forall|k: int, q: int| 0 <= k < n && 0 <= q < n && k != q ==> (#[trigger] arrivals[k]).0 != (#[trigger] arrivals[q]).0
}

/// The verdict that a complete run reports for planned probe `i`.
pub open spec fn verdict_for(arrivals: Seq<Arrival>, i: int) -> TargetScanStatus {
    let k = choose|k: int| 0 <= k < arrivals.len() && (#[trigger] arrivals[k]).0 == i;
    arrivals[k].1->Ok_0.0
}

/// After a complete run of an IPv4 plan with one probe per (host, port)
/// pair, the result map holds exactly the planned hosts and ports, each with
/// the verdict its own probe reported, whatever the arrival order and the
/// round-trip times. So two runs whose probes report the same verdicts
/// build the same verdict maps.
pub proof fn lemma_results_follow_plan(plan: Seq<WorkItem>, arrivals: Seq<Arrival>)
    requires
        pairs_distinct(plan),
        complete_run(plan.len() as int, arrivals),
    ensures
        first_error(arrival_reports(plan, arrivals)) is None,
        forall|ip: IpAddr| #[trigger] merged_ports(oks(arrival_reports(plan, arrivals))).contains_key(ip)
            <==> exists|i: int| 0 <= i < plan.len() && (#[trigger] plan[i]).dst.ip_of() == ip,
        forall|i: int| 0 <= i < plan.len() ==> {
            let m = merged_ports(oks(arrival_reports(plan, arrivals)));
            &&& m.contains_key((#[trigger] plan[i]).dst.ip_of())
            &&& m[plan[i].dst.ip_of()].0.contains_key(plan[i].dst_port)
            &&& m[plan[i].dst.ip_of()].0[plan[i].dst_port] == verdict_for(arrivals, i)
        },
{
    let n = plan.len() as int;
    let reps = arrival_reports(plan, arrivals);
    let s = oks(reps);
    lemma_no_error(reps);
    assert forall|k: int| 0 <= k < n implies (#[trigger] s[k]) == (PortOutcome {
        addr: IpAddr::V4(plan[arrivals[k].0 as int].dst),
        port: plan[arrivals[k].0 as int].dst_port,
        status: arrivals[k].1->Ok_0.0,
        rtt: arrivals[k].1->Ok_0.1,
    }) by {}
    assert(distinct_probes(s)) by {
        assert forall|k: int, q: int| 0 <= k < s.len() && 0 <= q < s.len() && k != q implies !((#[trigger] s[k]).addr
            == (#[trigger] s[q]).addr && s[k].port == s[q].port) by {
            assert(arrivals[k].0 != arrivals[q].0);
            let a = arrivals[k].0 as int;
            let b = arrivals[q].0 as int;
            assert(!(plan[a].dst == plan[b].dst && plan[a].dst_port == plan[b].dst_port));
        }
    }
    lemma_merged_ports_exact(s);
    let m = merged_ports(s);
    assert forall|ip: IpAddr| #[trigger] m.contains_key(ip) <==> exists|i: int| 0 <= i < plan.len() && (#[trigger] plan[i]).dst.ip_of() == ip by {
        if m.contains_key(ip) {
            let k = choose|k: int| 0 <= k < s.len() && (#[trigger] s[k]).addr == ip;
            let i = arrivals[k].0 as int;
            assert(plan[i].dst.ip_of() == ip);
        }
        if exists|i: int| 0 <= i < plan.len() && (#[trigger] plan[i]).dst.ip_of() == ip {
            let i = choose|i: int| 0 <= i < plan.len() && (#[trigger] plan[i]).dst.ip_of() == ip;
            lemma_index_covered(arrivals, n, i);
            let k = choose|k: int| 0 <= k < n && (#[trigger] arrivals[k]).0 == i;
            assert(s[k].addr == ip);
        }
    }
    assert forall|i: int| 0 <= i < n implies {
        &&& m.contains_key((#[trigger] plan[i]).dst.ip_of())
        &&& m[plan[i].dst.ip_of()].0.contains_key(plan[i].dst_port)
        &&& m[plan[i].dst.ip_of()].0[plan[i].dst_port] == verdict_for(arrivals, i)
    } by {
        lemma_index_covered(arrivals, n, i);
        let k = choose|k: int| 0 <= k < arrivals.len() && (#[trigger] arrivals[k]).0 == i;
        assert(s[k].addr == plan[i].dst.ip_of() && s[k].port == plan[i].dst_port);
        assert(m[s[k].addr].0[s[k].port] == s[k].status);
        assert(m.contains_key(s[k].addr));
    }
}

proof fn lemma_no_error(reps: Seq<Result<PortOutcome, ScanError>>)
    requires
        forall|k: int| 0 <= k < reps.len() ==> (#[trigger] reps[k]) is Ok,
    ensures
        first_error(reps) is None,
    decreases reps.len(),
{
    if reps.len() > 0 {
        let t = reps.drop_last();
        assert forall|k: int| 0 <= k < t.len() implies (#[trigger] t[k]) is Ok by {
            assert(t[k] == reps[k]);
        }
        lemma_no_error(t);
        assert(reps.last() == reps[reps.len() - 1]);
    }
}

/// In a complete run every planned index arrives (the arrivals are a
/// permutation of the plan's indices).
proof fn lemma_index_covered(arrivals: Seq<Arrival>, n: int, i: int)
    requires
        complete_run(n, arrivals),
        0 <= i < n,
    ensures
        exists|k: int| 0 <= k < n && (#[trigger] arrivals[k]).0 == i,
{
    let seen = Set::new(|x: int| exists|k: int| 0 <= k < n && (#[trigger] arrivals[k]).0 == x);
    let idx = Set::new(|k: int| 0 <= k < n);
    let f = |k: int| arrivals[k].0 as int;
    assert forall|x: int| seen.contains(x) <==> idx.map(f).contains(x) by {
        if seen.contains(x) {
            let k = choose|k: int| 0 <= k < n && (#[trigger] arrivals[k]).0 == x;
            assert(idx.contains(k) && f(k) == x);
        }
        if idx.map(f).contains(x) {
            let k = choose|k: int| idx.contains(k) && f(k) == x;
            assert(0 <= k < n && arrivals[k].0 == x);
        }
    }
    assert(seen =~= idx.map(f));
    vstd::set_lib::lemma_int_range(0, n);
    assert(n >= 0);
    assert(idx =~= vstd::set_lib::set_int_range(0, n));
    assert(idx.finite());
    assert(vstd::relations::injective_on(f, idx)) by {
        assert forall|a: int, b: int| idx.contains(a) && idx.contains(b) && #[trigger] f(a) == #[trigger] f(b) implies a == b by {
            if a != b {
                assert(arrivals[a].0 != arrivals[b].0);
            }
        }
    }
    vstd::set_lib::lemma_map_size(idx, seen, f);
    assert(seen.subset_of(idx));
    vstd::set_lib::lemma_subset_equality(seen, idx);
    assert(idx.contains(i));
}

} // verus!
