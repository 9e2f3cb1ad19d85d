//! Per-host result maps and the rule that merges probe verdicts into them.
use vstd::prelude::*;
use std::collections::HashMap;
use crate::addr::{IpAddr, Ipv4Addr, MacAddr};
use crate::oui::{NmapMacPrefix, lookup_vendor, oui_key, table_view, vendor_of};
use crate::error::ScanError;
use crate::status::TargetScanStatus;

verus! {

broadcast use vstd::std_specs::hash::group_hash_axioms;

/// A host's verdicts by key (port or protocol) and its first positive
/// round-trip time, in microseconds.
pub type EntryView<K> = (Map<K, TargetScanStatus>, Option<u64>);

/// The round-trip time kept after a new observation: the first positive one
/// wins.
pub open spec fn keep_rtt(kept: Option<u64>, seen: Option<u64>) -> Option<u64> {
    if kept is Some {
        kept
    } else if seen is Some && seen->0 > 0 {
        seen
    } else {
        None
    }
}

/// The entry of a host once verdict `s` for key `k` is added: a new host
/// starts with that verdict alone; for a known host, `s` replaces any
/// verdict that `k` had.
pub open spec fn record_entry<K>(e: Option<EntryView<K>>, k: K, s: TargetScanStatus, rtt: Option<u64>) -> EntryView<K> {
    match e {
        None => (Map::empty().insert(k, s), keep_rtt(None, rtt)),
        Some(v) => (v.0.insert(k, s), keep_rtt(v.1, rtt)),
    }
}

/// A result map after one more verdict for host `ip`.
pub open spec fn record_map<A, K>(m: Map<A, EntryView<K>>, ip: A, k: K, s: TargetScanStatus, rtt: Option<u64>) -> Map<A, EntryView<K>> {
    m.insert(ip, record_entry(if m.contains_key(ip) { Some(m[ip]) } else { None }, k, s, rtt))
}

/// What the scan worker reports for one probed port.
#[derive(Debug, Clone, Copy, PartialEq, Eq, Structural)]
pub struct PortOutcome {
    pub addr: IpAddr,
    pub port: u16,
    pub status: TargetScanStatus,
    /// Round-trip time in microseconds, where a reply was timed.
    pub rtt: Option<u64>,
}

/// The result map that a sequence of port outcomes builds, in arrival order.
pub open spec fn merged_ports(s: Seq<PortOutcome>) -> Map<IpAddr, EntryView<u16>>
    decreases s.len(),
{
    if s.len() == 0 {
        Map::empty()
    } else {
        let o = s.last();
        record_map(merged_ports(s.drop_last()), o.addr, o.port, o.status, o.rtt)
    }
}

/// The first error of a sequence of reports, if any.
pub open spec fn first_error<T>(s: Seq<Result<T, ScanError>>) -> Option<ScanError>
    decreases s.len(),
{
    if s.len() == 0 {
        None
    } else {
        match first_error(s.drop_last()) {
            Some(e) => Some(e),
            None => match s.last() {
                Err(e) => Some(e),
                Ok(_) => None,
            },
        }
    }
}

/// The values of a sequence of reports that holds no error.
pub open spec fn oks<T>(s: Seq<Result<T, ScanError>>) -> Seq<T> {
    s.map_values(|r: Result<T, ScanError>| r->Ok_0)
}

/// A host's verdicts by port, with the first round-trip time observed.
#[derive(Debug)]
pub struct PortStatus {
    pub status: HashMap<u16, TargetScanStatus>,
    /// Microseconds.
    pub rtt: Option<u64>,
}

impl PortStatus {
    /// The verdicts by port and the kept round-trip time.
    pub open spec fn view(&self) -> EntryView<u16> {
        (self.status@, self.rtt)
    }

    /// A host with no verdict yet.
    pub fn new() -> (r: PortStatus)
        ensures
            r.view() == (Map::<u16, TargetScanStatus>::empty(), None::<u64>),
    {
        PortStatus { status: HashMap::new(), rtt: None }
    }

    /// A copy with the same verdicts and round-trip time.
    pub fn duplicate(&self) -> (r: PortStatus)
        ensures
            r.view() == self.view(),
    {
        PortStatus { status: self.status.clone(), rtt: self.rtt }
    }

    /// Adds one verdict, keeping the first positive round-trip time.
    pub fn record(&mut self, port: u16, status: TargetScanStatus, rtt: Option<u64>)
        ensures
            final(self).view() == record_entry(Some(old(self).view()), port, status, rtt),
    {
        self.status.insert(port, status);
        if self.rtt.is_none() {
            match rtt {
                Some(t) => {
                    if t > 0 {
                        self.rtt = Some(t);
                    }
                },
                None => {},
            }
        }
    }

    /// The verdict recorded for `port`.
    pub fn get(&self, port: u16) -> (r: Option<TargetScanStatus>)
        ensures
            r == (if self.status@.contains_key(port) { Some(self.status@[port]) } else { None }),
    {
        match self.status.get(&port) {
            Some(s) => Some(*s),
            None => None,
        }
    }
}

/// The verdicts of a port scan, by host.
#[derive(Debug)]
pub struct TcpUdpScanResults {
    /// IPv4 hosts, keyed by the address's integer.
    pub results4: HashMap<u32, PortStatus>,
    /// IPv6 hosts, keyed by the address's integer.
    pub results6: HashMap<u128, PortStatus>,
}

impl TcpUdpScanResults {
    /// The hosts of both families as one map.
    pub open spec fn view(&self) -> Map<IpAddr, EntryView<u16>> {
        Map::new(
            |ip: IpAddr|
                match ip {
                    IpAddr::V4(a) => self.results4@.contains_key(a.0),
                    IpAddr::V6(a) => self.results6@.contains_key(a.0),
                },
            |ip: IpAddr|
                match ip {
                    IpAddr::V4(a) => self.results4@[a.0].view(),
                    IpAddr::V6(a) => self.results6@[a.0].view(),
                },
        )
    }

    /// No host yet.
    pub fn new() -> (r: TcpUdpScanResults)
        ensures
            r.view() == Map::<IpAddr, EntryView<u16>>::empty(),
    {
        let r = TcpUdpScanResults { results4: HashMap::new(), results6: HashMap::new() };
        assert(r.view() =~= Map::<IpAddr, EntryView<u16>>::empty());
        r
    }

    /// Merges one verdict for `port` of host `addr`.
    pub fn record(&mut self, addr: IpAddr, port: u16, status: TargetScanStatus, rtt: Option<u64>)
        ensures
            final(self).view() == record_map(old(self).view(), addr, port, status, rtt),
    {
        let ghost before = self.view();
        match addr {
            IpAddr::V4(a) => {
                let mut ps = match self.results4.remove(&a.0) {
                    Some(p) => p,
                    None => PortStatus::new(),
                };
                ps.record(port, status, rtt);
                self.results4.insert(a.0, ps);
            },
            IpAddr::V6(a) => {
                let mut ps = match self.results6.remove(&a.0) {
                    Some(p) => p,
                    None => PortStatus::new(),
                };
                ps.record(port, status, rtt);
                self.results6.insert(a.0, ps);
            },
        }
        assert(self.view() =~= record_map(before, addr, port, status, rtt));
    }

    /// The verdicts recorded for host `addr`.
    pub fn get(&self, addr: IpAddr) -> (r: Option<&PortStatus>)
        ensures
            match r {
                Some(ps) => self.view().contains_key(addr) && ps.view() == self.view()[addr],
                None => !self.view().contains_key(addr),
            },
    {
        match addr {
            IpAddr::V4(a) => self.results4.get(&a.0),
            IpAddr::V6(a) => self.results6.get(&a.0),
        }
    }
}

/// Once a prefix of the reports holds an error, the whole sequence's first
/// error is that one.
proof fn lemma_first_error_prefix<T>(s: Seq<Result<T, ScanError>>, i: int)
    requires
        0 <= i <= s.len(),
        first_error(s.take(i)) is Some,
    ensures
        first_error(s) == first_error(s.take(i)),
    decreases s.len(),
{
    if i < s.len() {
        assert(s.drop_last().take(i) =~= s.take(i));
        lemma_first_error_prefix(s.drop_last(), i);
    } else {
        assert(s.take(i) =~= s);
    }
}

/// Merges, in arrival order, the reports of every probe of a port scan; the
/// first error ends the merge and is returned.
pub fn aggregate_ports(reports: &Vec<Result<PortOutcome, ScanError>>) -> (r: Result<TcpUdpScanResults, ScanError>)
    ensures
        match first_error(reports@) {
            Some(e) => r == Err::<TcpUdpScanResults, ScanError>(e),
            None => r is Ok && r->Ok_0.view() == merged_ports(oks(reports@)),
        },
{
    let mut acc = TcpUdpScanResults::new();
    let mut i: usize = 0;
    assert(reports@.take(0) =~= Seq::<Result<PortOutcome, ScanError>>::empty());
    assert(oks(reports@.take(0)) =~= Seq::<PortOutcome>::empty());
    while i < reports.len()
        invariant
            i <= reports@.len(),
            first_error(reports@.take(i as int)) is None,
            acc.view() == merged_ports(oks(reports@.take(i as int))),
        decreases reports@.len() - i,
    {
        let ghost pre = reports@.take(i as int);
        let ghost next = reports@.take(i as int + 1);
        assert(next.drop_last() =~= pre);
        match &reports[i] {
            Ok(o) => {
                acc.record(o.addr, o.port, o.status, o.rtt);
                assert(oks(next).drop_last() =~= oks(pre));
            },
            Err(e) => {
                proof {
                    lemma_first_error_prefix(reports@, i as int + 1);
                }
                return Err(*e);
            },
        }
        i = i + 1;
    }
    assert(reports@.take(i as int) =~= reports@);
    Ok(acc)
}

/// Every host in a merged port map has at least one verdict, and a kept
/// round-trip time is positive.
pub proof fn lemma_merged_ports_nonempty(s: Seq<PortOutcome>)
    ensures
        forall|ip: IpAddr| #[trigger] merged_ports(s).contains_key(ip) ==> {
            &&& exists|p: u16| merged_ports(s)[ip].0.contains_key(p)
            &&& merged_ports(s)[ip].1 is Some ==> merged_ports(s)[ip].1->0 > 0
        },
    decreases s.len(),
{
    if s.len() > 0 {
        lemma_merged_ports_nonempty(s.drop_last());
        let o = s.last();
        assert(merged_ports(s)[o.addr].0.contains_key(o.port));
    }
}

/// A merged port map holds a verdict only for a (host, port) pair that some
/// probe reported on.
pub proof fn lemma_merged_ports_probed(s: Seq<PortOutcome>, ip: IpAddr, p: u16)
    requires
        merged_ports(s).contains_key(ip),
        merged_ports(s)[ip].0.contains_key(p),
    ensures
        exists|i: int| 0 <= i < s.len() && (#[trigger] s[i]).addr == ip && s[i].port == p,
    decreases s.len(),
{
    let o = s.last();
    if o.addr == ip && o.port == p {
        assert(s[s.len() - 1] == o);
    } else {
        lemma_merged_ports_probed(s.drop_last(), ip, p);
        let i = choose|i: int| 0 <= i < s.drop_last().len() && (#[trigger] s.drop_last()[i]).addr == ip && s.drop_last()[i].port == p;
        assert(s[i] == s.drop_last()[i]);
    }
}

/// Two runs whose probes report the same verdicts for the same (host, port)
/// pairs, in the same order, build the same verdict maps, whatever the
/// round-trip times.
pub proof fn lemma_merged_ports_verdicts_ignore_rtt(s1: Seq<PortOutcome>, s2: Seq<PortOutcome>)
    requires
        s1.len() == s2.len(),
        forall|i: int| 0 <= i < s1.len() ==> (#[trigger] s1[i]).addr == s2[i].addr && s1[i].port == s2[i].port && s1[i].status == s2[i].status,
    ensures
        merged_ports(s1).dom() == merged_ports(s2).dom(),
        forall|ip: IpAddr| #[trigger] merged_ports(s1).contains_key(ip) ==> merged_ports(s1)[ip].0 == merged_ports(s2)[ip].0,
    decreases s1.len(),
{
    if s1.len() > 0 {
        let t1 = s1.drop_last();
        let t2 = s2.drop_last();
        assert forall|i: int| 0 <= i < t1.len() implies (#[trigger] t1[i]).addr == t2[i].addr && t1[i].port == t2[i].port && t1[i].status == t2[i].status by {
            assert(t1[i] == s1[i] && t2[i] == s2[i]);
        }
        lemma_merged_ports_verdicts_ignore_rtt(t1, t2);
        assert(s1.last() == s1[s1.len() - 1] && s2.last() == s2[s2.len() - 1]);
        assert(merged_ports(s1).dom() =~= merged_ports(s2).dom());
    }
}

/// What the scan worker reports for one probed IP protocol.
#[derive(Debug, Clone, Copy, PartialEq, Eq, Structural)]
pub struct ProtocolOutcome {
    pub addr: Ipv4Addr,
    pub protocol: u8,
    pub status: TargetScanStatus,
    /// Round-trip time in microseconds, where a reply was timed.
    pub rtt: Option<u64>,
}

/// The result map that a sequence of protocol outcomes builds, in arrival
/// order.
pub open spec fn merged_protocols(s: Seq<ProtocolOutcome>) -> Map<u32, EntryView<u8>>
    decreases s.len(),
{
    if s.len() == 0 {
        Map::empty()
    } else {
        let o = s.last();
        record_map(merged_protocols(s.drop_last()), o.addr.0, o.protocol, o.status, o.rtt)
    }
}

/// A host's verdicts by IP protocol number, with the first round-trip time
/// observed.
#[derive(Debug)]
pub struct ProtocolStatus {
    pub status: HashMap<u8, TargetScanStatus>,
    /// Microseconds.
    pub rtt: Option<u64>,
}

impl ProtocolStatus {
    /// The verdicts by protocol and the kept round-trip time.
    pub open spec fn view(&self) -> EntryView<u8> {
        (self.status@, self.rtt)
    }

    /// A host with no verdict yet.
    pub fn new() -> (r: ProtocolStatus)
        ensures
            r.view() == (Map::<u8, TargetScanStatus>::empty(), None::<u64>),
    {
        ProtocolStatus { status: HashMap::new(), rtt: None }
    }

    /// Adds one verdict, keeping the first positive round-trip time.
    pub fn record(&mut self, protocol: u8, status: TargetScanStatus, rtt: Option<u64>)
        ensures
            final(self).view() == record_entry(Some(old(self).view()), protocol, status, rtt),
    {
        self.status.insert(protocol, status);
        if self.rtt.is_none() {
            match rtt {
                Some(t) => {
                    if t > 0 {
                        self.rtt = Some(t);
                    }
                },
                None => {},
            }
        }
    }

    /// The verdict recorded for `protocol`.
    pub fn get(&self, protocol: u8) -> (r: Option<TargetScanStatus>)
        ensures
            r == (if self.status@.contains_key(protocol) { Some(self.status@[protocol]) } else { None }),
    {
        match self.status.get(&protocol) {
            Some(s) => Some(*s),
            None => None,
        }
    }
}

/// The verdicts of an IP protocol scan, by host (keyed by the IPv4
/// address's integer).
#[derive(Debug)]
pub struct IpScanResults {
    pub results: HashMap<u32, ProtocolStatus>,
}

impl IpScanResults {
    /// The hosts as a map from address integer to their entries.
    pub open spec fn view(&self) -> Map<u32, EntryView<u8>> {
        self.results@.map_values(|p: ProtocolStatus| p.view())
    }

    /// No host yet.
    pub fn new() -> (r: IpScanResults)
        ensures
            r.view() == Map::<u32, EntryView<u8>>::empty(),
    {
        let r = IpScanResults { results: HashMap::new() };
        assert(r.view() =~= Map::<u32, EntryView<u8>>::empty());
        r
    }

    /// Merges one verdict for `protocol` of host `addr`.
    pub fn record(&mut self, addr: Ipv4Addr, protocol: u8, status: TargetScanStatus, rtt: Option<u64>)
        ensures
            final(self).view() == record_map(old(self).view(), addr.0, protocol, status, rtt),
    {
        let ghost before = self.view();
        let mut ps = match self.results.remove(&addr.0) {
            Some(p) => p,
            None => ProtocolStatus::new(),
        };
        ps.record(protocol, status, rtt);
        self.results.insert(addr.0, ps);
        assert(self.view() =~= record_map(before, addr.0, protocol, status, rtt));
    }

    /// The verdicts recorded for host `addr`.
    pub fn get(&self, addr: Ipv4Addr) -> (r: Option<&ProtocolStatus>)
        ensures
            match r {
                Some(ps) => self.view().contains_key(addr.0) && ps.view() == self.view()[addr.0],
                None => !self.view().contains_key(addr.0),
            },
    {
        self.results.get(&addr.0)
    }
}

/// Merges, in arrival order, the reports of every probe of an IP protocol
/// scan; the first error ends the merge and is returned.
pub fn aggregate_protocols(reports: &Vec<Result<ProtocolOutcome, ScanError>>) -> (r: Result<IpScanResults, ScanError>)
    ensures
        match first_error(reports@) {
            Some(e) => r == Err::<IpScanResults, ScanError>(e),
            None => r is Ok && r->Ok_0.view() == merged_protocols(oks(reports@)),
        },
{
    let mut acc = IpScanResults::new();
    let mut i: usize = 0;
    assert(reports@.take(0) =~= Seq::<Result<ProtocolOutcome, ScanError>>::empty());
    assert(oks(reports@.take(0)) =~= Seq::<ProtocolOutcome>::empty());
    while i < reports.len()
        invariant
            i <= reports@.len(),
            first_error(reports@.take(i as int)) is None,
            acc.view() == merged_protocols(oks(reports@.take(i as int))),
        decreases reports@.len() - i,
    {
        let ghost pre = reports@.take(i as int);
        let ghost next = reports@.take(i as int + 1);
        assert(next.drop_last() =~= pre);
        match &reports[i] {
            Ok(o) => {
                acc.record(o.addr, o.protocol, o.status, o.rtt);
                assert(oks(next).drop_last() =~= oks(pre));
            },
            Err(e) => {
                proof {
                    lemma_first_error_prefix(reports@, i as int + 1);
                }
                return Err(*e);
            },
        }
        i = i + 1;
    }
    assert(reports@.take(i as int) =~= reports@);
    Ok(acc)
}

/// Every host in a merged protocol map has at least one verdict, and a
/// kept round-trip time is positive.
pub proof fn lemma_merged_protocols_nonempty(s: Seq<ProtocolOutcome>)
    ensures
        forall|a: u32| #[trigger] merged_protocols(s).contains_key(a) ==> {
            &&& exists|p: u8| merged_protocols(s)[a].0.contains_key(p)
            &&& merged_protocols(s)[a].1 is Some ==> merged_protocols(s)[a].1->0 > 0
        },
    decreases s.len(),
{
    if s.len() > 0 {
        lemma_merged_protocols_nonempty(s.drop_last());
        let o = s.last();
        assert(merged_protocols(s)[o.addr.0].0.contains_key(o.protocol));
    }
}

/// Whether no two outcomes are for the same (host, port) pair.
pub open spec fn distinct_probes(s: Seq<PortOutcome>) -> bool {
    forall|i: int, j: int|
        0 <= i < s.len() && 0 <= j < s.len() && i != j ==> !((#[trigger] s[i]).addr == (#[trigger] s[j]).addr
            && s[i].port == s[j].port)
}

/// With one outcome per (host, port) pair, the merged map holds exactly the
/// reported pairs, each with its reported verdict.
pub proof fn lemma_merged_ports_exact(s: Seq<PortOutcome>)
    requires
        distinct_probes(s),
    ensures
        forall|ip: IpAddr| #[trigger] merged_ports(s).contains_key(ip) <==> exists|i: int| 0 <= i < s.len() && (#[trigger] s[i]).addr == ip,
        forall|ip: IpAddr, p: u16| #[trigger] merged_ports(s).contains_key(ip) ==> (#[trigger] merged_ports(s)[ip].0.contains_key(p)
            <==> exists|i: int| 0 <= i < s.len() && (#[trigger] s[i]).addr == ip && s[i].port == p),
        forall|i: int| 0 <= i < s.len() ==> #[trigger] merged_ports(s)[s[i].addr].0[s[i].port] == s[i].status,
    decreases s.len(),
{
    if s.len() > 0 {
        let t = s.drop_last();
        let o = s.last();
        let n = s.len() - 1;
        assert(s[n] == o);
        assert forall|i: int, j: int| 0 <= i < t.len() && 0 <= j < t.len() && i != j implies !((#[trigger] t[i]).addr == (#[trigger] t[j]).addr
            && t[i].port == t[j].port) by {
            assert(t[i] == s[i] && t[j] == s[j]);
        }
        lemma_merged_ports_exact(t);
        let m = merged_ports(s);
        let mt = merged_ports(t);
        assert forall|ip: IpAddr| #[trigger] m.contains_key(ip) <==> exists|i: int| 0 <= i < s.len() && (#[trigger] s[i]).addr == ip by {
            if m.contains_key(ip) && ip != o.addr {
                let i = choose|i: int| 0 <= i < t.len() && (#[trigger] t[i]).addr == ip;
                assert(s[i] == t[i]);
            }
            if exists|i: int| 0 <= i < s.len() && (#[trigger] s[i]).addr == ip {
                let i = choose|i: int| 0 <= i < s.len() && (#[trigger] s[i]).addr == ip;
                if i < n {
                    assert(t[i] == s[i]);
                }
            }
        }
        assert forall|ip: IpAddr, p: u16| #[trigger] m.contains_key(ip) implies (#[trigger] m[ip].0.contains_key(p)
            <==> exists|i: int| 0 <= i < s.len() && (#[trigger] s[i]).addr == ip && s[i].port == p) by {
            if m[ip].0.contains_key(p) && !(ip == o.addr && p == o.port) {
                assert(mt.contains_key(ip));
                let i = choose|i: int| 0 <= i < t.len() && (#[trigger] t[i]).addr == ip && t[i].port == p;
                assert(s[i] == t[i]);
            }
            if exists|i: int| 0 <= i < s.len() && (#[trigger] s[i]).addr == ip && s[i].port == p {
                let i = choose|i: int| 0 <= i < s.len() && (#[trigger] s[i]).addr == ip && s[i].port == p;
                if i < n {
                    assert(t[i] == s[i]);
                    assert(mt.contains_key(ip));
                    assert(mt[ip].0.contains_key(p));
                }
            }
        }
        assert forall|i: int| 0 <= i < s.len() implies #[trigger] m[s[i].addr].0[s[i].port] == s[i].status by {
            if i < n {
                assert(t[i] == s[i]);
                assert(!(s[i].addr == s[n].addr && s[i].port == s[n].port));
                assert(mt.contains_key(s[i].addr));
            }
        }
    }
}

/// Every triple of `s1` is reported in `s2`.
pub open spec fn triples_within(s1: Seq<PortOutcome>, s2: Seq<PortOutcome>) -> bool {
    forall|i: int| 0 <= i < s1.len() ==> exists|j: int| 0 <= j < s2.len() && (#[trigger] s1[i]).addr == (#[trigger] s2[j]).addr
        && s1[i].port == s2[j].port && s1[i].status == s2[j].status
}

proof fn lemma_verdict_carries(s1: Seq<PortOutcome>, s2: Seq<PortOutcome>, ip: IpAddr, p: u16)
    requires
        distinct_probes(s1),
        distinct_probes(s2),
        triples_within(s1, s2),
        merged_ports(s1).contains_key(ip),
        merged_ports(s1)[ip].0.contains_key(p),
    ensures
        merged_ports(s2).contains_key(ip),
        merged_ports(s2)[ip].0.contains_key(p),
        merged_ports(s2)[ip].0[p] == merged_ports(s1)[ip].0[p],
{
    lemma_merged_ports_exact(s1);
    lemma_merged_ports_exact(s2);
    let i = choose|i: int| 0 <= i < s1.len() && (#[trigger] s1[i]).addr == ip && s1[i].port == p;
    let j = choose|j: int| 0 <= j < s2.len() && (#[trigger] s1[i]).addr == (#[trigger] s2[j]).addr
        && s1[i].port == s2[j].port && s1[i].status == s2[j].status;
    assert(merged_ports(s2).contains_key(s2[j].addr));
    assert(merged_ports(s1)[s1[i].addr].0[s1[i].port] == s1[i].status);
    assert(merged_ports(s2)[s2[j].addr].0[s2[j].port] == s2[j].status);
}

/// Two runs that report the same (host, port, verdict) triples, in any
/// arrival order and with any round-trip times, one per (host, port) pair,
/// build the same verdict maps.
pub proof fn lemma_merged_ports_order_free(s1: Seq<PortOutcome>, s2: Seq<PortOutcome>)
    requires
        distinct_probes(s1),
        distinct_probes(s2),
        triples_within(s1, s2),
        triples_within(s2, s1),
    ensures
        merged_ports(s1).dom() == merged_ports(s2).dom(),
        forall|ip: IpAddr| #[trigger] merged_ports(s1).contains_key(ip) ==> merged_ports(s1)[ip].0 == merged_ports(s2)[ip].0,
{
    let m1 = merged_ports(s1);
    let m2 = merged_ports(s2);
    lemma_merged_ports_nonempty(s1);
    lemma_merged_ports_nonempty(s2);
    assert forall|ip: IpAddr| m1.contains_key(ip) <==> m2.contains_key(ip) by {
        if m1.contains_key(ip) {
            let p = choose|p: u16| m1[ip].0.contains_key(p);
            lemma_verdict_carries(s1, s2, ip, p);
        }
        if m2.contains_key(ip) {
            let p = choose|p: u16| m2[ip].0.contains_key(p);
            lemma_verdict_carries(s2, s1, ip, p);
        }
    }
    assert(m1.dom() =~= m2.dom());
    assert forall|ip: IpAddr| #[trigger] m1.contains_key(ip) implies m1[ip].0 == m2[ip].0 by {
        assert forall|p: u16| m1[ip].0.contains_key(p) <==> m2[ip].0.contains_key(p) by {
            if m1[ip].0.contains_key(p) {
                lemma_verdict_carries(s1, s2, ip, p);
            }
            if m2[ip].0.contains_key(p) {
                lemma_verdict_carries(s2, s1, ip, p);
            }
        }
        assert forall|p: u16| #[trigger] m1[ip].0.contains_key(p) implies m1[ip].0[p] == m2[ip].0[p] by {
            lemma_verdict_carries(s1, s2, ip, p);
        }
        assert(m1[ip].0 =~= m2[ip].0);
    }
}

/// A live host found by ARP: its hardware address and vendor.
#[derive(Debug)]
pub struct ArpAliveHosts {
    pub mac_addr: MacAddr,
    pub ouis: String,
}

/// What one ARP probe found: the hardware address in the reply, if one
/// came.
#[derive(Debug, Clone, Copy, PartialEq, Eq, Structural)]
pub struct ArpOutcome {
    pub addr: Ipv4Addr,
    pub mac: Option<MacAddr>,
}

/// The live hosts of an ARP scan, keyed by the IPv4 address's integer.
#[derive(Debug)]
pub struct ArpScanResults {
    pub alive_hosts: HashMap<u32, ArpAliveHosts>,
}

impl ArpScanResults {
    /// The live hosts as a map from address integer to (hardware address,
    /// vendor).
    pub open spec fn view(&self) -> Map<u32, (MacAddr, Seq<char>)> {
        self.alive_hosts@.map_values(|h: ArpAliveHosts| (h.mac_addr, h.ouis@))
    }

    /// The host found at `addr`, if any.
    pub fn get(&self, addr: Ipv4Addr) -> (r: Option<&ArpAliveHosts>)
        ensures
            match r {
                Some(h) => self.view().contains_key(addr.0) && self.view()[addr.0] == (h.mac_addr, h.ouis@),
                None => !self.view().contains_key(addr.0),
            },
    {
        self.alive_hosts.get(&addr.0)
    }

    /// How many live hosts were found.
    pub fn len(&self) -> (r: usize)
        ensures
            r == self.view().len(),
    {
        assert(self.view().dom() =~= self.alive_hosts@.dom());
        self.alive_hosts.len()
    }
}

/// The live-host map that a sequence of ARP outcomes builds: a host that
/// replied with a hardware address that is none of the scanner's own is kept,
/// with the vendor that the table gives.
pub open spec fn merged_arp(s: Seq<ArpOutcome>, own: Seq<MacAddr>, t: Seq<(Seq<char>, Seq<char>)>) -> Map<u32, (MacAddr, Seq<char>)>
    decreases s.len(),
{
    if s.len() == 0 {
        Map::empty()
    } else {
        let prev = merged_arp(s.drop_last(), own, t);
        let o = s.last();
        match o.mac {
            Some(m) => if !own.contains(m) {
                prev.insert(o.addr.0, (m, vendor_of(t, oui_key(m))))
            } else {
                prev
            },
            None => prev,
        }
    }
}

fn is_own(own: &Vec<MacAddr>, m: MacAddr) -> (r: bool)
    ensures
        r == own@.contains(m),
{
    let mut i: usize = 0;
    while i < own.len()
        invariant
            i <= own@.len(),
            forall|k: int| 0 <= k < i ==> own@[k] != m,
        decreases own@.len() - i,
    {
        if own[i] == m {
            assert(own@[i as int] == m);
            return true;
        }
        i = i + 1;
    }
    false
}

/// Builds the live-host map of an ARP scan from its probes' outcomes.
pub fn arp_results(outcomes: &Vec<ArpOutcome>, own: &Vec<MacAddr>, table: &Vec<NmapMacPrefix>) -> (r: ArpScanResults)
    ensures
        r.view() == merged_arp(outcomes@, own@, table_view(table@)),
{
    let mut r = ArpScanResults { alive_hosts: HashMap::new() };
    let ghost t = table_view(table@);
    let mut i: usize = 0;
    assert(outcomes@.take(0) =~= Seq::<ArpOutcome>::empty());
    assert(r.view() =~= merged_arp(outcomes@.take(0), own@, t));
    while i < outcomes.len()
        invariant
            i <= outcomes@.len(),
            t == table_view(table@),
            r.view() == merged_arp(outcomes@.take(i as int), own@, t),
        decreases outcomes@.len() - i,
    {
        let ghost before = r.view();
        assert(outcomes@.take(i as int + 1).drop_last() =~= outcomes@.take(i as int));
        let o = outcomes[i];
        match o.mac {
            Some(m) => {
                if !is_own(own, m) {
                    let ouis = lookup_vendor(table, m);
                    r.alive_hosts.insert(o.addr.0, ArpAliveHosts { mac_addr: m, ouis });
                    assert(r.view() =~= before.insert(o.addr.0, (m, vendor_of(t, oui_key(m)))));
                }
            },
            None => {},
        }
        i = i + 1;
    }
    assert(outcomes@.take(i as int) =~= outcomes@);
    r
}

/// An ARP scan of N probed addresses yields at most N live hosts, each one
/// of the probed addresses, and none with one of the scanner's own hardware
/// addresses.
pub proof fn lemma_arp_results_bounded(s: Seq<ArpOutcome>, own: Seq<MacAddr>, t: Seq<(Seq<char>, Seq<char>)>)
    ensures
        merged_arp(s, own, t).dom().finite(),
        merged_arp(s, own, t).dom().len() <= s.len(),
        forall|a: u32| #[trigger] merged_arp(s, own, t).contains_key(a) ==> !own.contains(merged_arp(s, own, t)[a].0)
            && exists|i: int| 0 <= i < s.len() && (#[trigger] s[i]).addr.0 == a,
    decreases s.len(),
{
    if s.len() > 0 {
        let p = s.drop_last();
        lemma_arp_results_bounded(p, own, t);
        assert forall|a: u32| #[trigger] merged_arp(s, own, t).contains_key(a) implies !own.contains(merged_arp(s, own, t)[a].0)
            && exists|i: int| 0 <= i < s.len() && (#[trigger] s[i]).addr.0 == a by {
            if a == s.last().addr.0 {
                assert(s[s.len() - 1] == s.last());
            } else {
                assert(merged_arp(p, own, t).contains_key(a));
                let i = choose|i: int| 0 <= i < p.len() && (#[trigger] p[i]).addr.0 == a;
                assert(s[i] == p[i]);
            }
        }
    }
}

} // verus!
