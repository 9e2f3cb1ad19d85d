//! IPv6 probes: header encoding and decoding, TCP and UDP probes over IPv6,
//! and the match predicate for their replies.
use vstd::prelude::*;
use vstd::slice::slice_subrange;
use crate::addr::Ipv6Addr;
use crate::packet::{
    PROBE_WINDOW, PROTO_TCP, PROTO_UDP, TCP_ACK, TCP_RST, TCP_SYN, TcpHeader, UdpHeader, be16, be32,
    decode_tcp, has_flag, put_tcp, put_udp, read16, read32, tcp_bytes,
    tcp_fields, udp_bytes,
};
use crate::packet::{get32, probe_flags, push16, push32};
use crate::capture::{flag_set, read_u16};
use crate::status::{Observation, ScanMethod6, method_of6, ICMP_PORT_UNREACHABLE};

verus! {

/// The next-header number of ICMPv6.
pub const PROTO_ICMPV6: u8 = 58;
/// The ICMPv6 type of a destination-unreachable message.
pub const ICMPV6_DEST_UNREACHABLE: u8 = 1;
/// The size of the fixed IPv6 header.
pub const IPV6_HEADER_SIZE: usize = 40;
/// The hop limit of outbound probes.
pub const DEFAULT_HOP_LIMIT: u8 = 64;

/// The fields of a fixed IPv6 header; traffic class and flow label are zero.
#[derive(Debug, Clone, Copy, PartialEq, Eq, Structural)]
pub struct Ipv6Header {
    pub payload_length: u16,
    pub next_header: u8,
    pub hop_limit: u8,
    pub source: Ipv6Addr,
    pub destination: Ipv6Addr,
}

/// 2^32.
pub open spec fn w32() -> int {
    0x1_0000_0000
}

/// The 32-bit words of a 128-bit value, most significant first.
pub open spec fn word(v: u128, i: int) -> u32 {
    let q1 = v as int / w32();
    let q2 = q1 / w32();
    let q3 = q2 / w32();
    if i == 0 {
        q3 as u32
    } else if i == 1 {
        (q2 % w32()) as u32
    } else if i == 2 {
        (q1 % w32()) as u32
    } else {
        (v as int % w32()) as u32
    }
}

/// Sixteen bytes, most significant first.
#[verifier::opaque]
pub open spec fn be128(v: u128) -> Seq<u8> {
    be32(word(v, 0)) + be32(word(v, 1)) + be32(word(v, 2)) + be32(word(v, 3))
}

/// The 128-bit big-endian value at `i`.
#[verifier::opaque]
pub open spec fn read128(b: Seq<u8>, i: int) -> u128 {
    (((read32(b, i) as int * w32() + read32(b, i + 4) as int) * w32() + read32(b, i + 8) as int)
        * w32() + read32(b, i + 12) as int) as u128
}

/// The forty bytes of a fixed IPv6 header.
pub open spec fn ipv6_bytes(h: Ipv6Header) -> Seq<u8> {
    seq![0x60u8, 0u8, 0u8, 0u8] + be16(h.payload_length) + seq![h.next_header, h.hop_limit]
        + be128(h.source.0) + be128(h.destination.0)
}

/// Whether the bytes start with a fixed IPv6 header.
pub open spec fn valid_ipv6(b: Seq<u8>) -> bool {
    b.len() >= 40 && b[0] / 16 == 6
}

/// The IPv6 header fields read from the first forty bytes.
pub open spec fn ipv6_fields(b: Seq<u8>) -> Ipv6Header {
    Ipv6Header {
        payload_length: read16(b, 4),
        next_header: b[6],
        hop_limit: b[7],
        source: Ipv6Addr(read128(b, 8)),
        destination: Ipv6Addr(read128(b, 24)),
    }
}

proof fn lemma_be32_read(v: u32)
    ensures
        read32(be32(v), 0) == v,
{
    assert((v / 0x1000000) as u8 as int == v / 0x1000000);
    assert((v / 0x10000 % 256) as u8 as int == v / 0x10000 % 256);
    assert((v / 0x100 % 256) as u8 as int == v / 0x100 % 256);
    assert((v % 256) as u8 as int == v % 256);
}

proof fn lemma_div_mod_split(x: int, c: int)
    requires
        x >= 0,
        c > 0,
    ensures
        x == (x / c) * c + x % c,
        0 <= x % c < c,
        x / c >= 0,
{
    vstd::arithmetic::div_mod::lemma_fundamental_div_mod(x, c);
    assert((x / c) * c == c * (x / c)) by (nonlinear_arith);
}

proof fn lemma_words(v: u128)
    ensures
        v as int == ((word(v, 0) as int * w32() + word(v, 1) as int) * w32() + word(v, 2) as int)
            * w32() + word(v, 3) as int,
{
    let x = v as int;
    let q1 = x / w32();
    let q2 = q1 / w32();
    let q3 = q2 / w32();
    lemma_div_mod_split(x, w32());
    lemma_div_mod_split(q1, w32());
    lemma_div_mod_split(q2, w32());
    assert(q1 <= x / w32());
    assert(x < w32() * w32() * w32() * w32()) by (nonlinear_arith)
        requires
            x <= 0xffff_ffff_ffff_ffff_ffff_ffff_ffff_ffff,
            w32() == 0x1_0000_0000,
    ;
    assert(q3 < w32()) by (nonlinear_arith)
        requires
            q1 == x / w32(),
            q2 == q1 / w32(),
            q3 == q2 / w32(),
            x < w32() * w32() * w32() * w32(),
            x >= 0,
            w32() > 0,
    ;
}

proof fn lemma_be128(v: u128)
    ensures
        be128(v).len() == 16,
        read128(be128(v), 0) == v,
{
    reveal(be128);
    reveal(read128);
    let b = be128(v);
    assert(b.subrange(0, 4) =~= be32(word(v, 0)));
    assert(b.subrange(4, 8) =~= be32(word(v, 1)));
    assert(b.subrange(8, 12) =~= be32(word(v, 2)));
    assert(b.subrange(12, 16) =~= be32(word(v, 3)));
    lemma_be32_read(word(v, 0));
    lemma_be32_read(word(v, 1));
    lemma_be32_read(word(v, 2));
    lemma_be32_read(word(v, 3));
    assert(read32(b, 0) == read32(b.subrange(0, 4), 0));
    assert(read32(b, 4) == read32(b.subrange(4, 8), 0));
    assert(read32(b, 8) == read32(b.subrange(8, 12), 0));
    assert(read32(b, 12) == read32(b.subrange(12, 16), 0));
    lemma_words(v);
}

proof fn lemma_read128_at(b: Seq<u8>, i: int, v: u128)
    requires
        0 <= i,
        i + 16 <= b.len(),
        b.subrange(i, i + 16) == be128(v),
    ensures
        read128(b, i) == v,
{
    let s = b.subrange(i, i + 16);
    lemma_be128(v);
    reveal(read128);
    assert(read32(b, i) == read32(s, 0));
    assert(read32(b, i + 4) == read32(s, 4));
    assert(read32(b, i + 8) == read32(s, 8));
    assert(read32(b, i + 12) == read32(s, 12));
}

/// Decoding an encoded IPv6 header gives back every field.
pub proof fn lemma_ipv6_round_trip(h: Ipv6Header)
    ensures
        ipv6_bytes(h).len() == IPV6_HEADER_SIZE,
        valid_ipv6(ipv6_bytes(h)),
        ipv6_fields(ipv6_bytes(h)) == h,
{
    let b = ipv6_bytes(h);
    lemma_be128(h.source.0);
    lemma_be128(h.destination.0);
    assert(b.len() == 40);
    assert(b.subrange(8, 24) =~= be128(h.source.0));
    assert(b.subrange(24, 40) =~= be128(h.destination.0));
    lemma_read128_at(b, 8, h.source.0);
    lemma_read128_at(b, 24, h.destination.0);
    assert(b[4] == (h.payload_length / 256) as u8 && b[5] == (h.payload_length % 256) as u8);
    assert((h.payload_length / 256) as u8 as int == h.payload_length / 256);
    assert((h.payload_length % 256) as u8 as int == h.payload_length % 256);
    assert(b[6] == h.next_header && b[7] == h.hop_limit && b[0] == 0x60u8);
}

/// A built IPv6 TCP probe decodes to the headers it was built from.
pub proof fn lemma_tcp_probe6_round_trip(src: Ipv6Addr, sport: u16, dst: Ipv6Addr, dport: u16, flags: u8, seq: u32)
    ensures
        ({
            let ip = probe_ipv6(src, dst, PROTO_TCP, 20);
            let t = probe_tcp6(src, dst, sport, dport, flags, seq);
            let b = ipv6_bytes(ip) + tcp_bytes(t);
            &&& valid_ipv6(b)
            &&& ipv6_fields(b) == ip
            &&& tcp_fields(b.subrange(40, b.len() as int)) == t
        }),
{
    let ip = probe_ipv6(src, dst, PROTO_TCP, 20);
    let t = probe_tcp6(src, dst, sport, dport, flags, seq);
    let b = ipv6_bytes(ip) + tcp_bytes(t);
    lemma_ipv6_round_trip(ip);
    crate::packet::lemma_tcp_round_trip(t);
    assert(b.subrange(40, b.len() as int) =~= tcp_bytes(t));
    assert(b.subrange(0, 40) =~= ipv6_bytes(ip));
    assert(ipv6_fields(b) == ipv6_fields(b.subrange(0, 40))) by {
        reveal(read128);
    }
}

fn push128(buf: &mut Vec<u8>, v: u128)
    ensures
        final(buf)@ == old(buf)@ + be128(v),
{
    reveal(be128);
    let q1 = v / 0x1_0000_0000;
    let q2 = q1 / 0x1_0000_0000;
    let q3 = q2 / 0x1_0000_0000;
    assert(q3 < 0x1_0000_0000) by (nonlinear_arith)
        requires
            q1 == v / 0x1_0000_0000,
            q2 == q1 / 0x1_0000_0000,
            q3 == q2 / 0x1_0000_0000,
            v <= 0xffff_ffff_ffff_ffff_ffff_ffff_ffff_ffff,
    ;
    push32(buf, q3 as u32);
    push32(buf, (q2 % 0x1_0000_0000) as u32);
    push32(buf, (q1 % 0x1_0000_0000) as u32);
    push32(buf, (v % 0x1_0000_0000) as u32);
    assert(buf@ =~= old(buf)@ + be128(v));
}

fn get128(b: &[u8], i: usize) -> (r: u128)
    requires
        i + 16 <= b@.len(),
    ensures
        r == read128(b@, i as int),
{
    reveal(read128);
    assert(b@.len() == b.len() as int);
    let a = get32(b, i) as u128;
    let c = get32(b, i + 4) as u128;
    let d = get32(b, i + 8) as u128;
    let e = get32(b, i + 12) as u128;
    ((a * 0x1_0000_0000 + c) * 0x1_0000_0000 + d) * 0x1_0000_0000 + e
}

/// Appends the encoding of an IPv6 header.
pub fn put_ipv6(buf: &mut Vec<u8>, h: &Ipv6Header)
    ensures
        final(buf)@ == old(buf)@ + ipv6_bytes(*h),
{
    buf.push(0x60u8);
    buf.push(0u8);
    buf.push(0u8);
    buf.push(0u8);
    push16(buf, h.payload_length);
    buf.push(h.next_header);
    buf.push(h.hop_limit);
    push128(buf, h.source.0);
    push128(buf, h.destination.0);
    assert(buf@ =~= old(buf)@ + ipv6_bytes(*h));
}

/// Reads a fixed IPv6 header, or nothing where the bytes hold none.
pub fn decode_ipv6(b: &[u8]) -> (r: Option<Ipv6Header>)
    ensures
        r == (if valid_ipv6(b@) { Some(ipv6_fields(b@)) } else { None }),
{
    if b.len() < 40 || b[0] / 16 != 6 {
        return None;
    }
    Some(Ipv6Header {
        payload_length: (b[4] as u16) * 256 + b[5] as u16,
        next_header: b[6],
        hop_limit: b[7],
        source: Ipv6Addr(get128(b, 8)),
        destination: Ipv6Addr(get128(b, 24)),
    })
}

/// Names what `pnet::packet::util::ipv6_checksum` returns for a TCP or UDP
/// segment (no extra data), the word it skips, and the pseudo-header's
/// addresses and next header.
pub uninterp spec fn ipv6_transport_checksum(data: Seq<u8>, skipword: usize, src: u128, dst: u128, next_header: u8) -> u16;

/// Relies on `pnet::packet::util::ipv6_checksum`: the checksum of a segment
/// over the IPv6 pseudo-header and the segment, the word at `skipword`
/// counted as zero. Its 32-bit running sum cannot overflow for a segment of
/// at most 65535 bytes.
#[verifier::external_body]
fn transport_checksum_v6(data: &[u8], skipword: usize, src: Ipv6Addr, dst: Ipv6Addr, next_header: u8) -> (r: u16)
    requires
        data@.len() <= 65535,
    ensures
        r == ipv6_transport_checksum(data@, skipword, src.0, dst.0, next_header),
{
    let nh = pnet::packet::ip::IpNextHeaderProtocol(next_header);
    pnet::packet::util::ipv6_checksum(data, skipword, &[], &src.0.into(), &dst.0.into(), nh)
}

/// The header of an outbound IPv6 probe.
pub open spec fn probe_ipv6(src: Ipv6Addr, dst: Ipv6Addr, next_header: u8, payload: u16) -> Ipv6Header {
    Ipv6Header {
        payload_length: payload,
        next_header,
        hop_limit: DEFAULT_HOP_LIMIT,
        source: src,
        destination: dst,
    }
}

/// The TCP header of an IPv6 probe, its checksum over the IPv6
/// pseudo-header and the segment.
pub open spec fn probe_tcp6(src: Ipv6Addr, dst: Ipv6Addr, sport: u16, dport: u16, flags: u8, seq: u32) -> TcpHeader {
    let t = TcpHeader {
        source: sport,
        destination: dport,
        sequence: seq,
        acknowledgement: 0,
        flags,
        window: PROBE_WINDOW,
        checksum: 0,
        urgent_ptr: 0,
    };
    TcpHeader {
        checksum: ipv6_transport_checksum(tcp_bytes(t), 8, src.0, dst.0, PROTO_TCP),
        ..t
    }
}

/// The UDP header of an empty IPv6 probe, its checksum over pseudo-header
/// and datagram.
pub open spec fn probe_udp6(src: Ipv6Addr, dst: Ipv6Addr, sport: u16, dport: u16) -> UdpHeader {
    let u = UdpHeader { source: sport, destination: dport, length: 8, checksum: 0 };
    UdpHeader {
        checksum: ipv6_transport_checksum(udp_bytes(u), 3, src.0, dst.0, PROTO_UDP),
        ..u
    }
}

/// The sixty bytes of a TCP probe over IPv6.
pub fn build_tcp_probe6(src: Ipv6Addr, sport: u16, dst: Ipv6Addr, dport: u16, flags: u8, seq: u32) -> (r: Vec<u8>)
    ensures
        r@ == ipv6_bytes(probe_ipv6(src, dst, PROTO_TCP, 20)) + tcp_bytes(probe_tcp6(src, dst, sport, dport, flags, seq)),
{
    let t0 = TcpHeader {
        source: sport,
        destination: dport,
        sequence: seq,
        acknowledgement: 0,
        flags,
        window: PROBE_WINDOW,
        checksum: 0,
        urgent_ptr: 0,
    };
    let mut segment: Vec<u8> = Vec::new();
    put_tcp(&mut segment, &t0);
    assert(segment@ =~= tcp_bytes(t0));
    let c = transport_checksum_v6(segment.as_slice(), 8, src, dst, PROTO_TCP);
    let t = TcpHeader { checksum: c, ..t0 };
    let ip = Ipv6Header {
        payload_length: 20,
        next_header: PROTO_TCP,
        hop_limit: DEFAULT_HOP_LIMIT,
        source: src,
        destination: dst,
    };
    let mut out: Vec<u8> = Vec::new();
    put_ipv6(&mut out, &ip);
    put_tcp(&mut out, &t);
    assert(out@ =~= ipv6_bytes(ip) + tcp_bytes(t));
    out
}

/// The forty-eight bytes of an empty UDP probe over IPv6.
pub fn build_udp_probe6(src: Ipv6Addr, sport: u16, dst: Ipv6Addr, dport: u16) -> (r: Vec<u8>)
    ensures
        r@ == ipv6_bytes(probe_ipv6(src, dst, PROTO_UDP, 8)) + udp_bytes(probe_udp6(src, dst, sport, dport)),
{
    let u0 = UdpHeader { source: sport, destination: dport, length: 8, checksum: 0 };
    let mut datagram: Vec<u8> = Vec::new();
    put_udp(&mut datagram, &u0);
    assert(datagram@ =~= udp_bytes(u0));
    let c = transport_checksum_v6(datagram.as_slice(), 3, src, dst, PROTO_UDP);
    let u = UdpHeader { checksum: c, ..u0 };
    let ip = Ipv6Header {
        payload_length: 8,
        next_header: PROTO_UDP,
        hop_limit: DEFAULT_HOP_LIMIT,
        source: src,
        destination: dst,
    };
    let mut out: Vec<u8> = Vec::new();
    put_ipv6(&mut out, &ip);
    put_udp(&mut out, &u);
    assert(out@ =~= ipv6_bytes(ip) + udp_bytes(u));
    out
}

/// What identifies an outstanding IPv6 probe.
#[derive(Debug, Clone, Copy, PartialEq, Eq, Structural)]
pub struct ProbeKey6 {
    pub src: Ipv6Addr,
    pub src_port: u16,
    pub dst: Ipv6Addr,
    pub dst_port: u16,
    pub protocol: u8,
}

/// The key that replies to a probe of method `m` are matched on.
pub fn probe_key6(m: ScanMethod6, src: Ipv6Addr, src_port: u16, dst: Ipv6Addr, dst_port: u16) -> (r: ProbeKey6)
    ensures
        r == (ProbeKey6 {
            src,
            src_port,
            dst,
            dst_port,
            protocol: if m == ScanMethod6::Udp { PROTO_UDP } else { PROTO_TCP },
        }),
{
    let protocol = match m {
        ScanMethod6::Udp => PROTO_UDP,
        _ => PROTO_TCP,
    };
    ProbeKey6 { src, src_port, dst, dst_port, protocol }
}

/// The packet that an IPv6 method sends for probe `k`; the connect scan has
/// none.
pub open spec fn probe_bytes6(m: ScanMethod6, k: ProbeKey6, seq: u32) -> Option<Seq<u8>> {
    match m {
        ScanMethod6::Connect => None,
        ScanMethod6::Udp => Some(
            ipv6_bytes(probe_ipv6(k.src, k.dst, PROTO_UDP, 8)) + udp_bytes(
                probe_udp6(k.src, k.dst, k.src_port, k.dst_port),
            ),
        ),
        _ => Some(
            ipv6_bytes(probe_ipv6(k.src, k.dst, PROTO_TCP, 20)) + tcp_bytes(
                probe_tcp6(k.src, k.dst, k.src_port, k.dst_port, probe_flags(method_of6(m)), seq),
            ),
        ),
    }
}

/// Builds the packet that IPv6 method `m` sends for probe `k`.
pub fn probe_packet6(m: ScanMethod6, k: ProbeKey6, seq: u32) -> (r: Option<Vec<u8>>)
    ensures
        match r {
            Some(b) => probe_bytes6(m, k, seq) == Some(b@),
            None => probe_bytes6(m, k, seq) is None,
        },
{
    match m {
        ScanMethod6::Connect => None,
        ScanMethod6::Udp => Some(build_udp_probe6(k.src, k.src_port, k.dst, k.dst_port)),
        _ => Some(
            build_tcp_probe6(
                k.src,
                k.src_port,
                k.dst,
                k.dst_port,
                crate::packet::tcp_probe_flags(m.as_method()),
                seq,
            ),
        ),
    }
}

/// The ICMPv4 unreachable code that the verdict tables read for an ICMPv6
/// destination-unreachable code: port unreachable stays port unreachable;
/// every other code reads as administratively prohibited (filtered).
pub open spec fn icmp6_code(c: u8) -> u8 {
    if c == 4 {
        ICMP_PORT_UNREACHABLE
    } else {
        13
    }
}

/// Whether `q`, the packet quoted in an ICMPv6 error, is the probe.
pub open spec fn quotes_probe6(q: Seq<u8>, k: ProbeKey6) -> bool {
    &&& valid_ipv6(q)
    &&& ipv6_fields(q).next_header == k.protocol
    &&& ipv6_fields(q).source == k.src
    &&& ipv6_fields(q).destination == k.dst
    &&& q.len() >= 44
    &&& read16(q, 40) == k.src_port
    &&& read16(q, 42) == k.dst_port
}

/// What an inbound IPv6 packet says of probe `k`, or `None` where it does
/// not answer it; as for IPv4, an ICMPv6 destination-unreachable quoting
/// the probe comes first.
pub open spec fn observe6(frame: Seq<u8>, k: ProbeKey6) -> Option<Observation> {
    if !valid_ipv6(frame) {
        None
    } else {
        let ip = ipv6_fields(frame);
        let rest = frame.subrange(40, frame.len() as int);
        if ip.next_header == PROTO_ICMPV6 && ip.destination == k.src && rest.len() >= 8 && rest[0]
            == ICMPV6_DEST_UNREACHABLE && quotes_probe6(rest.subrange(8, rest.len() as int), k) {
            Some(Observation::IcmpUnreachable { code: icmp6_code(rest[1]) })
        } else if ip.next_header == k.protocol && ip.source == k.dst && ip.destination == k.src
            && rest.len() >= 8 && read16(rest, 0) == k.dst_port && read16(rest, 2) == k.src_port {
            if k.protocol == PROTO_TCP {
                if rest.len() >= 20 {
                    let t = tcp_fields(rest);
                    Some(
                        Observation::Tcp {
                            syn: has_flag(t.flags, TCP_SYN),
                            ack: has_flag(t.flags, TCP_ACK),
                            rst: has_flag(t.flags, TCP_RST),
                            window: t.window,
                        },
                    )
                } else {
                    None
                }
            } else if k.protocol == PROTO_UDP {
                Some(Observation::Udp)
            } else {
                None
            }
        } else {
            None
        }
    }
}

fn quoted_probe6(q: &[u8], k: ProbeKey6) -> (r: bool)
    ensures
        r == quotes_probe6(q@, k),
{
    match decode_ipv6(q) {
        None => false,
        Some(h) => h.next_header == k.protocol && h.source == k.src && h.destination == k.dst
            && q.len() >= 44 && read_u16(q, 40) == k.src_port && read_u16(q, 42) == k.dst_port,
    }
}

/// Reads an inbound IPv6 packet against probe `k`.
pub fn observe_frame6(frame: &[u8], k: ProbeKey6) -> (r: Option<Observation>)
    ensures
        r == observe6(frame@, k),
{
    let ip = match decode_ipv6(frame) {
        None => return None,
        Some(h) => h,
    };
    let rest = slice_subrange(frame, 40, frame.len());
    if ip.next_header == PROTO_ICMPV6 && ip.destination == k.src && rest.len() >= 8 && rest[0]
        == ICMPV6_DEST_UNREACHABLE {
        let quoted = slice_subrange(rest, 8, rest.len());
        if quoted_probe6(quoted, k) {
            let code = if rest[1] == 4 { ICMP_PORT_UNREACHABLE } else { 13 };
            return Some(Observation::IcmpUnreachable { code });
        }
    }
    if ip.next_header == k.protocol && ip.source == k.dst && ip.destination == k.src && rest.len()
        >= 8 && read_u16(rest, 0) == k.dst_port && read_u16(rest, 2) == k.src_port {
        if k.protocol == PROTO_TCP {
            match decode_tcp(rest) {
                Some(t) => Some(
                    Observation::Tcp {
                        syn: flag_set(t.flags, TCP_SYN),
                        ack: flag_set(t.flags, TCP_ACK),
                        rst: flag_set(t.flags, TCP_RST),
                        window: t.window,
                    },
                ),
                None => None,
            }
        } else if k.protocol == PROTO_UDP {
            Some(Observation::Udp)
        } else {
            None
        }
    } else {
        None
    }
}

} // verus!
