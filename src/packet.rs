//! Probe packets on the wire: IPv4, TCP and UDP headers encoded to bytes
//! and decoded back.
use vstd::prelude::*;
use crate::addr::Ipv4Addr;
use crate::status::ScanMethod;

verus! {

/// Names what `pnet::packet::util::checksum` returns for a byte string and
/// the index of the 16-bit word it skips.
pub uninterp spec fn internet_checksum(data: Seq<u8>, skipword: usize) -> u16;

/// Relies on `pnet::packet::util::checksum`: the ones'-complement Internet
/// checksum of `data`, the word at `skipword` counted as zero. Its 32-bit
/// running sum cannot overflow for data of at most 65535 bytes.
#[verifier::external_body]
pub(crate) fn checksum_of(data: &[u8], skipword: usize) -> (r: u16)
    requires
        data@.len() <= 65535,
    ensures
        r == internet_checksum(data@, skipword),
{
    pnet::packet::util::checksum(data, skipword)
}

/// Names what `pnet::packet::util::ipv4_checksum` returns for a TCP or UDP
/// segment (no extra data), the word it skips, and the pseudo-header's
/// addresses and protocol.
pub uninterp spec fn ipv4_transport_checksum(data: Seq<u8>, skipword: usize, src: u32, dst: u32, protocol: u8) -> u16;

/// Relies on `pnet::packet::util::ipv4_checksum`: the checksum of a segment
/// over the IPv4 pseudo-header and the segment, the word at `skipword`
/// counted as zero. Its 32-bit running sum cannot overflow for a segment of
/// at most 65535 bytes.
#[verifier::external_body]
pub(crate) fn transport_checksum_v4(data: &[u8], skipword: usize, src: Ipv4Addr, dst: Ipv4Addr, protocol: u8) -> (r: u16)
    requires
        data@.len() <= 65535,
    ensures
        r == ipv4_transport_checksum(data@, skipword, src.0, dst.0, protocol),
{
    let ip = pnet::packet::ip::IpNextHeaderProtocol(protocol);
    pnet::packet::util::ipv4_checksum(data, skipword, &[], &src.0.into(), &dst.0.into(), ip)
}

/// IP protocol numbers.
pub const PROTO_ICMP: u8 = 1;
pub const PROTO_TCP: u8 = 6;
pub const PROTO_UDP: u8 = 17;

/// Header sizes in bytes.
pub const IPV4_HEADER_SIZE: usize = 20;
pub const TCP_HEADER_SIZE: usize = 20;
pub const UDP_HEADER_SIZE: usize = 8;

/// The time to live of outbound probes.
pub const DEFAULT_TTL: u8 = 64;

/// The window that TCP probes advertise.
pub const PROBE_WINDOW: u16 = 1024;

/// The fields of an IPv4 header without options.
#[derive(Debug, Clone, Copy, PartialEq, Eq, Structural)]
pub struct Ipv4Header {
    pub total_length: u16,
    pub identification: u16,
    pub dont_fragment: bool,
    pub ttl: u8,
    pub protocol: u8,
    pub checksum: u16,
    pub source: Ipv4Addr,
    pub destination: Ipv4Addr,
}

/// The fields of a TCP header without options.
#[derive(Debug, Clone, Copy, PartialEq, Eq, Structural)]
pub struct TcpHeader {
    pub source: u16,
    pub destination: u16,
    pub sequence: u32,
    pub acknowledgement: u32,
    pub flags: u8,
    pub window: u16,
    pub checksum: u16,
    pub urgent_ptr: u16,
}

/// The fields of a UDP header.
#[derive(Debug, Clone, Copy, PartialEq, Eq, Structural)]
pub struct UdpHeader {
    pub source: u16,
    pub destination: u16,
    pub length: u16,
    pub checksum: u16,
}

/// Two bytes, most significant first.
pub open spec fn be16(v: u16) -> Seq<u8> {
    seq![(v / 256) as u8, (v % 256) as u8]
}

/// Four bytes, most significant first.
pub open spec fn be32(v: u32) -> Seq<u8> {
    seq![(v / 0x1000000) as u8, (v / 0x10000 % 256) as u8, (v / 0x100 % 256) as u8, (v % 256) as u8]
}

/// The 16-bit big-endian value at `i`.
pub open spec fn read16(b: Seq<u8>, i: int) -> u16 {
    (b[i] as int * 256 + b[i + 1] as int) as u16
}

/// The 32-bit big-endian value at `i`.
pub open spec fn read32(b: Seq<u8>, i: int) -> u32 {
    (b[i] as int * 0x1000000 + b[i + 1] as int * 0x10000 + b[i + 2] as int * 0x100 + b[i + 3] as int) as u32
}

/// The twenty bytes of an IPv4 header: version 4, header length 5, no
/// options, the don't-fragment flag as given and no fragment offset.
pub open spec fn ipv4_bytes(h: Ipv4Header) -> Seq<u8> {
    seq![0x45u8, 0u8] + be16(h.total_length) + be16(h.identification) + seq![
        if h.dont_fragment { 0x40u8 } else { 0u8 },
        0u8,
        h.ttl,
        h.protocol,
    ] + be16(h.checksum) + be32(h.source.0) + be32(h.destination.0)
}

/// The twenty bytes of a TCP header: data offset 5, no options.
pub open spec fn tcp_bytes(t: TcpHeader) -> Seq<u8> {
    be16(t.source) + be16(t.destination) + be32(t.sequence) + be32(t.acknowledgement) + seq![
        0x50u8,
        t.flags,
    ] + be16(t.window) + be16(t.checksum) + be16(t.urgent_ptr)
}

/// The eight bytes of a UDP header.
pub open spec fn udp_bytes(u: UdpHeader) -> Seq<u8> {
    be16(u.source) + be16(u.destination) + be16(u.length) + be16(u.checksum)
}

/// The IPv4 header fields read from the first twenty bytes.
pub open spec fn ipv4_fields(b: Seq<u8>) -> Ipv4Header {
    Ipv4Header {
        total_length: read16(b, 2),
        identification: read16(b, 4),
        dont_fragment: (b[6] as int / 64) % 2 == 1,
        ttl: b[8],
        protocol: b[9],
        checksum: read16(b, 10),
        source: Ipv4Addr(read32(b, 12)),
        destination: Ipv4Addr(read32(b, 16)),
    }
}

/// The TCP header fields read from the first twenty bytes.
pub open spec fn tcp_fields(b: Seq<u8>) -> TcpHeader {
    TcpHeader {
        source: read16(b, 0),
        destination: read16(b, 2),
        sequence: read32(b, 4),
        acknowledgement: read32(b, 8),
        flags: b[13],
        window: read16(b, 14),
        checksum: read16(b, 16),
        urgent_ptr: read16(b, 18),
    }
}

/// The UDP header fields read from the first eight bytes.
pub open spec fn udp_fields(b: Seq<u8>) -> UdpHeader {
    UdpHeader {
        source: read16(b, 0),
        destination: read16(b, 2),
        length: read16(b, 4),
        checksum: read16(b, 6),
    }
}

proof fn lemma_be16(v: u16)
    ensures
        read16(be16(v), 0) == v,
{
    assert((v / 256) as u8 as int == v / 256);
    assert((v % 256) as u8 as int == v % 256);
}

proof fn lemma_be32(v: u32)
    ensures
        read32(be32(v), 0) == v,
{
    assert((v / 0x1000000) as u8 as int == v / 0x1000000);
    assert((v / 0x10000 % 256) as u8 as int == v / 0x10000 % 256);
    assert((v / 0x100 % 256) as u8 as int == v / 0x100 % 256);
    assert((v % 256) as u8 as int == v % 256);
}

/// Reading back at `i` what was written there.
proof fn lemma_read16_at(b: Seq<u8>, i: int, v: u16)
    requires
        0 <= i,
        i + 2 <= b.len(),
        b.subrange(i, i + 2) == be16(v),
    ensures
        read16(b, i) == v,
{
    lemma_be16(v);
    assert(b[i] == be16(v)[0] && b[i + 1] == be16(v)[1]);
}

proof fn lemma_read32_at(b: Seq<u8>, i: int, v: u32)
    requires
        0 <= i,
        i + 4 <= b.len(),
        b.subrange(i, i + 4) == be32(v),
    ensures
        read32(b, i) == v,
{
    lemma_be32(v);
    assert(b[i] == be32(v)[0] && b[i + 1] == be32(v)[1] && b[i + 2] == be32(v)[2] && b[i + 3]
        == be32(v)[3]);
}

/// Decoding an encoded IPv4 header gives back every field, the checksum
/// included.
pub proof fn lemma_ipv4_round_trip(h: Ipv4Header)
    ensures
        ipv4_bytes(h).len() == IPV4_HEADER_SIZE,
        ipv4_fields(ipv4_bytes(h)) == h,
{
    let b = ipv4_bytes(h);
    assert(b.len() == 20);
    assert(b.subrange(2, 4) =~= be16(h.total_length));
    assert(b.subrange(4, 6) =~= be16(h.identification));
    assert(b.subrange(10, 12) =~= be16(h.checksum));
    assert(b.subrange(12, 16) =~= be32(h.source.0));
    assert(b.subrange(16, 20) =~= be32(h.destination.0));
    lemma_read16_at(b, 2, h.total_length);
    lemma_read16_at(b, 4, h.identification);
    lemma_read16_at(b, 10, h.checksum);
    lemma_read32_at(b, 12, h.source.0);
    lemma_read32_at(b, 16, h.destination.0);
    assert(b[6] == if h.dont_fragment { 0x40u8 } else { 0u8 });
    assert(b[8] == h.ttl && b[9] == h.protocol);
}

/// Decoding an encoded TCP header gives back every field, the checksum
/// included.
pub proof fn lemma_tcp_round_trip(t: TcpHeader)
    ensures
        tcp_bytes(t).len() == TCP_HEADER_SIZE,
        tcp_fields(tcp_bytes(t)) == t,
{
    let b = tcp_bytes(t);
    assert(b.len() == 20);
    assert(b.subrange(0, 2) =~= be16(t.source));
    assert(b.subrange(2, 4) =~= be16(t.destination));
    assert(b.subrange(4, 8) =~= be32(t.sequence));
    assert(b.subrange(8, 12) =~= be32(t.acknowledgement));
    assert(b.subrange(14, 16) =~= be16(t.window));
    assert(b.subrange(16, 18) =~= be16(t.checksum));
    assert(b.subrange(18, 20) =~= be16(t.urgent_ptr));
    lemma_read16_at(b, 0, t.source);
    lemma_read16_at(b, 2, t.destination);
    lemma_read32_at(b, 4, t.sequence);
    lemma_read32_at(b, 8, t.acknowledgement);
    lemma_read16_at(b, 14, t.window);
    lemma_read16_at(b, 16, t.checksum);
    lemma_read16_at(b, 18, t.urgent_ptr);
    assert(b[13] == t.flags);
}

/// Decoding an encoded UDP header gives back every field, the checksum
/// included.
pub proof fn lemma_udp_round_trip(u: UdpHeader)
    ensures
        udp_bytes(u).len() == UDP_HEADER_SIZE,
        udp_fields(udp_bytes(u)) == u,
{
    let b = udp_bytes(u);
    assert(b.len() == 8);
    assert(b.subrange(0, 2) =~= be16(u.source));
    assert(b.subrange(2, 4) =~= be16(u.destination));
    assert(b.subrange(4, 6) =~= be16(u.length));
    assert(b.subrange(6, 8) =~= be16(u.checksum));
    lemma_read16_at(b, 0, u.source);
    lemma_read16_at(b, 2, u.destination);
    lemma_read16_at(b, 4, u.length);
    lemma_read16_at(b, 6, u.checksum);
}

/// Whether the first bytes hold an IPv4 header that the byte count covers.
pub open spec fn valid_ipv4(b: Seq<u8>) -> bool {
    &&& b.len() >= 20
    &&& b[0] / 16 == 4
    &&& b[0] % 16 >= 5
    &&& (b[0] % 16) * 4 <= b.len()
}

/// The length in bytes of a valid IPv4 header, options included.
pub open spec fn ipv4_header_len(b: Seq<u8>) -> int {
    (b[0] % 16) * 4
}

/// An encoded header decodes: it is a valid IPv4 header of twenty bytes.
pub proof fn lemma_ipv4_bytes_valid(h: Ipv4Header)
    ensures
        valid_ipv4(ipv4_bytes(h)),
        ipv4_header_len(ipv4_bytes(h)) == 20,
{
    assert(ipv4_bytes(h)[0] == 0x45u8);
}

pub(crate) fn push16(buf: &mut Vec<u8>, v: u16)
    ensures
        final(buf)@ == old(buf)@ + be16(v),
{
    buf.push((v / 256) as u8);
    buf.push((v % 256) as u8);
    assert(buf@ =~= old(buf)@ + be16(v));
}

pub(crate) fn push32(buf: &mut Vec<u8>, v: u32)
    ensures
        final(buf)@ == old(buf)@ + be32(v),
{
    buf.push((v / 0x1000000) as u8);
    buf.push((v / 0x10000 % 256) as u8);
    buf.push((v / 0x100 % 256) as u8);
    buf.push((v % 256) as u8);
    assert(buf@ =~= old(buf)@ + be32(v));
}

pub(crate) fn get16(b: &[u8], i: usize) -> (r: u16)
    requires
        i + 2 <= b@.len(),
    ensures
        r == read16(b@, i as int),
{
    (b[i] as u16) * 256 + b[i + 1] as u16
}

pub(crate) fn get32(b: &[u8], i: usize) -> (r: u32)
    requires
        i + 4 <= b@.len(),
    ensures
        r == read32(b@, i as int),
{
    (b[i] as u32) * 0x1000000 + (b[i + 1] as u32) * 0x10000 + (b[i + 2] as u32) * 0x100 + b[i
        + 3] as u32
}

/// Appends the encoding of an IPv4 header.
pub fn put_ipv4(buf: &mut Vec<u8>, h: &Ipv4Header)
    ensures
        final(buf)@ == old(buf)@ + ipv4_bytes(*h),
{
    buf.push(0x45u8);
    buf.push(0u8);
    push16(buf, h.total_length);
    push16(buf, h.identification);
    buf.push(if h.dont_fragment { 0x40u8 } else { 0u8 });
    buf.push(0u8);
    buf.push(h.ttl);
    buf.push(h.protocol);
    push16(buf, h.checksum);
    push32(buf, h.source.0);
    push32(buf, h.destination.0);
    assert(buf@ =~= old(buf)@ + ipv4_bytes(*h));
}

/// Appends the encoding of a TCP header.
pub fn put_tcp(buf: &mut Vec<u8>, t: &TcpHeader)
    ensures
        final(buf)@ == old(buf)@ + tcp_bytes(*t),
{
    push16(buf, t.source);
    push16(buf, t.destination);
    push32(buf, t.sequence);
    push32(buf, t.acknowledgement);
    buf.push(0x50u8);
    buf.push(t.flags);
    push16(buf, t.window);
    push16(buf, t.checksum);
    push16(buf, t.urgent_ptr);
    assert(buf@ =~= old(buf)@ + tcp_bytes(*t));
}

/// Appends the encoding of a UDP header.
pub fn put_udp(buf: &mut Vec<u8>, u: &UdpHeader)
    ensures
        final(buf)@ == old(buf)@ + udp_bytes(*u),
{
    push16(buf, u.source);
    push16(buf, u.destination);
    push16(buf, u.length);
    push16(buf, u.checksum);
    assert(buf@ =~= old(buf)@ + udp_bytes(*u));
}

/// Reads an IPv4 header, or nothing where the bytes hold none.
pub fn decode_ipv4(b: &[u8]) -> (r: Option<Ipv4Header>)
    ensures
        r == (if valid_ipv4(b@) { Some(ipv4_fields(b@)) } else { None }),
{
    if b.len() < 20 || b[0] / 16 != 4 || b[0] % 16 < 5 || (b[0] % 16) as usize * 4 > b.len() {
        return None;
    }
    Some(Ipv4Header {
        total_length: get16(b, 2),
        identification: get16(b, 4),
        dont_fragment: (b[6] / 64) % 2 == 1,
        ttl: b[8],
        protocol: b[9],
        checksum: get16(b, 10),
        source: Ipv4Addr(get32(b, 12)),
        destination: Ipv4Addr(get32(b, 16)),
    })
}

/// Reads a TCP header, or nothing where fewer than twenty bytes are given.
pub fn decode_tcp(b: &[u8]) -> (r: Option<TcpHeader>)
    ensures
        r == (if b@.len() >= 20 { Some(tcp_fields(b@)) } else { None }),
{
    if b.len() < 20 {
        return None;
    }
    Some(TcpHeader {
        source: get16(b, 0),
        destination: get16(b, 2),
        sequence: get32(b, 4),
        acknowledgement: get32(b, 8),
        flags: b[13],
        window: get16(b, 14),
        checksum: get16(b, 16),
        urgent_ptr: get16(b, 18),
    })
}

/// Reads a UDP header, or nothing where fewer than eight bytes are given.
pub fn decode_udp(b: &[u8]) -> (r: Option<UdpHeader>)
    ensures
        r == (if b@.len() >= 8 { Some(udp_fields(b@)) } else { None }),
{
    if b.len() < 8 {
        return None;
    }
    Some(UdpHeader {
        source: get16(b, 0),
        destination: get16(b, 2),
        length: get16(b, 4),
        checksum: get16(b, 6),
    })
}

/// TCP flag bits.
pub const TCP_FIN: u8 = 0x01;
pub const TCP_SYN: u8 = 0x02;
pub const TCP_RST: u8 = 0x04;
pub const TCP_PSH: u8 = 0x08;
pub const TCP_ACK: u8 = 0x10;
pub const TCP_URG: u8 = 0x20;

/// The flags that each TCP method's probe carries.
pub open spec fn probe_flags(m: ScanMethod) -> u8 {
    match m {
        ScanMethod::Fin => TCP_FIN,
        ScanMethod::Ack | ScanMethod::Window => TCP_ACK,
        ScanMethod::Null => 0,
        ScanMethod::Xmas => (TCP_FIN + TCP_PSH + TCP_URG) as u8,
        ScanMethod::Maimon => (TCP_FIN + TCP_ACK) as u8,
        _ => TCP_SYN,
    }
}

/// The flags of a TCP method's probe.
pub fn tcp_probe_flags(m: ScanMethod) -> (r: u8)
    ensures
        r == probe_flags(m),
{
    match m {
        ScanMethod::Fin => TCP_FIN,
        ScanMethod::Ack | ScanMethod::Window => TCP_ACK,
        ScanMethod::Null => 0,
        ScanMethod::Xmas => TCP_FIN + TCP_PSH + TCP_URG,
        ScanMethod::Maimon => TCP_FIN + TCP_ACK,
        _ => TCP_SYN,
    }
}

/// Whether flag bit `bit` (a power of two) is set.
pub open spec fn has_flag(flags: u8, bit: u8) -> bool {
    (flags as int / bit as int) % 2 == 1
}

/// The header of an outbound probe before its checksum: don't-fragment set,
/// the default time to live.
pub open spec fn probe_ipv4_unsummed(src: Ipv4Addr, dst: Ipv4Addr, protocol: u8, total: u16, id: u16) -> Ipv4Header {
    Ipv4Header {
        total_length: total,
        identification: id,
        dont_fragment: true,
        ttl: DEFAULT_TTL,
        protocol,
        checksum: 0,
        source: src,
        destination: dst,
    }
}

/// The header of an outbound probe, with its header checksum.
pub open spec fn probe_ipv4(src: Ipv4Addr, dst: Ipv4Addr, protocol: u8, total: u16, id: u16) -> Ipv4Header {
    let h = probe_ipv4_unsummed(src, dst, protocol, total, id);
    Ipv4Header { checksum: internet_checksum(ipv4_bytes(h), 5), ..h }
}

/// The TCP header of a probe before its checksum.
pub open spec fn probe_tcp_unsummed(sport: u16, dport: u16, flags: u8, seq: u32) -> TcpHeader {
    TcpHeader {
        source: sport,
        destination: dport,
        sequence: seq,
        acknowledgement: 0,
        flags,
        window: PROBE_WINDOW,
        checksum: 0,
        urgent_ptr: 0,
    }
}

/// The TCP header of a probe, its checksum over the IPv4 pseudo-header and
/// the segment.
pub open spec fn probe_tcp(src: Ipv4Addr, dst: Ipv4Addr, sport: u16, dport: u16, flags: u8, seq: u32) -> TcpHeader {
    let t = probe_tcp_unsummed(sport, dport, flags, seq);
    TcpHeader {
        checksum: ipv4_transport_checksum(tcp_bytes(t), 8, src.0, dst.0, PROTO_TCP),
        ..t
    }
}

/// The UDP header of an empty probe, its checksum over pseudo-header and
/// datagram.
pub open spec fn probe_udp(src: Ipv4Addr, dst: Ipv4Addr, sport: u16, dport: u16) -> UdpHeader {
    let u = UdpHeader { source: sport, destination: dport, length: 8, checksum: 0 };
    UdpHeader {
        checksum: ipv4_transport_checksum(udp_bytes(u), 3, src.0, dst.0, PROTO_UDP),
        ..u
    }
}

/// The IPv4 header of a probe, with its checksum.
fn make_ipv4(src: Ipv4Addr, dst: Ipv4Addr, protocol: u8, total: u16, id: u16) -> (r: Ipv4Header)
    ensures
        r == probe_ipv4(src, dst, protocol, total, id),
{
    let h = Ipv4Header {
        total_length: total,
        identification: id,
        dont_fragment: true,
        ttl: DEFAULT_TTL,
        protocol,
        checksum: 0,
        source: src,
        destination: dst,
    };
    let mut b: Vec<u8> = Vec::new();
    put_ipv4(&mut b, &h);
    assert(b@ =~= ipv4_bytes(h));
    let c = checksum_of(b.as_slice(), 5);
    Ipv4Header { checksum: c, ..h }
}

/// The forty bytes of a TCP probe: IPv4 header and TCP header with the given
/// flags, initial sequence number and IP identification.
pub fn build_tcp_probe(src: Ipv4Addr, sport: u16, dst: Ipv4Addr, dport: u16, flags: u8, seq: u32, id: u16) -> (r: Vec<u8>)
    ensures
        r@ == ipv4_bytes(probe_ipv4(src, dst, PROTO_TCP, 40, id)) + tcp_bytes(probe_tcp(src, dst, sport, dport, flags, seq)),
{
    let t0 = TcpHeader {
        source: sport,
        destination: dport,
        sequence: seq,
        acknowledgement: 0,
        flags,
        window: PROBE_WINDOW,
        checksum: 0,
        urgent_ptr: 0,
    };
    let mut segment: Vec<u8> = Vec::new();
    put_tcp(&mut segment, &t0);
    assert(segment@ =~= tcp_bytes(t0));
    let c = transport_checksum_v4(segment.as_slice(), 8, src, dst, PROTO_TCP);
    let t = TcpHeader { checksum: c, ..t0 };
    let ip = make_ipv4(src, dst, PROTO_TCP, 40, id);
    let mut out: Vec<u8> = Vec::new();
    put_ipv4(&mut out, &ip);
    put_tcp(&mut out, &t);
    assert(out@ =~= ipv4_bytes(ip) + tcp_bytes(t));
    out
}

/// The twenty-eight bytes of an empty UDP probe.
pub fn build_udp_probe(src: Ipv4Addr, sport: u16, dst: Ipv4Addr, dport: u16, id: u16) -> (r: Vec<u8>)
    ensures
        r@ == ipv4_bytes(probe_ipv4(src, dst, PROTO_UDP, 28, id)) + udp_bytes(probe_udp(src, dst, sport, dport)),
{
    let u0 = UdpHeader { source: sport, destination: dport, length: 8, checksum: 0 };
    let mut datagram: Vec<u8> = Vec::new();
    put_udp(&mut datagram, &u0);
    assert(datagram@ =~= udp_bytes(u0));
    let c = transport_checksum_v4(datagram.as_slice(), 3, src, dst, PROTO_UDP);
    let u = UdpHeader { checksum: c, ..u0 };
    let ip = make_ipv4(src, dst, PROTO_UDP, 28, id);
    let mut out: Vec<u8> = Vec::new();
    put_ipv4(&mut out, &ip);
    put_udp(&mut out, &u);
    assert(out@ =~= ipv4_bytes(ip) + udp_bytes(u));
    out
}

/// The twenty bytes of an IP protocol probe: a bare IPv4 header naming the
/// protocol.
pub fn build_ip_protocol_probe(src: Ipv4Addr, dst: Ipv4Addr, protocol: u8, id: u16) -> (r: Vec<u8>)
    ensures
        r@ == ipv4_bytes(probe_ipv4(src, dst, protocol, 20, id)),
{
    let ip = make_ipv4(src, dst, protocol, 20, id);
    let mut out: Vec<u8> = Vec::new();
    put_ipv4(&mut out, &ip);
    assert(out@ =~= ipv4_bytes(ip));
    out
}

/// The eight bytes of an ICMP echo request with the given checksum.
pub open spec fn icmp_echo_bytes(ident: u16, seq: u16, checksum: u16) -> Seq<u8> {
    seq![8u8, 0u8] + be16(checksum) + be16(ident) + be16(seq)
}

/// The twenty-eight bytes of an ICMP echo request: IPv4 header and echo
/// header, each with its checksum.
pub fn build_icmp_echo(src: Ipv4Addr, dst: Ipv4Addr, ident: u16, seq: u16, id: u16) -> (r: Vec<u8>)
    ensures
        r@ == ipv4_bytes(probe_ipv4(src, dst, PROTO_ICMP, 28, id)) + icmp_echo_bytes(
            ident,
            seq,
            internet_checksum(icmp_echo_bytes(ident, seq, 0), 1),
        ),
{
    let mut echo: Vec<u8> = Vec::new();
    echo.push(8u8);
    echo.push(0u8);
    push16(&mut echo, 0);
    push16(&mut echo, ident);
    push16(&mut echo, seq);
    assert(echo@ =~= icmp_echo_bytes(ident, seq, 0));
    let c = checksum_of(echo.as_slice(), 1);
    let ip = make_ipv4(src, dst, PROTO_ICMP, 28, id);
    let mut out: Vec<u8> = Vec::new();
    put_ipv4(&mut out, &ip);
    out.push(8u8);
    out.push(0u8);
    push16(&mut out, c);
    push16(&mut out, ident);
    push16(&mut out, seq);
    assert(out@ =~= ipv4_bytes(ip) + icmp_echo_bytes(ident, seq, c));
    out
}

/// A built TCP probe decodes to the headers it was built from: the IPv4
/// header at its start, the TCP header after it.
pub proof fn lemma_tcp_probe_round_trip(src: Ipv4Addr, sport: u16, dst: Ipv4Addr, dport: u16, flags: u8, seq: u32, id: u16)
    ensures
        ({
            let ip = probe_ipv4(src, dst, PROTO_TCP, 40, id);
            let t = probe_tcp(src, dst, sport, dport, flags, seq);
            let b = ipv4_bytes(ip) + tcp_bytes(t);
            &&& valid_ipv4(b)
            &&& ipv4_header_len(b) == 20
            &&& ipv4_fields(b) == ip
            &&& tcp_fields(b.subrange(20, b.len() as int)) == t
        }),
{
    let ip = probe_ipv4(src, dst, PROTO_TCP, 40, id);
    let t = probe_tcp(src, dst, sport, dport, flags, seq);
    let b = ipv4_bytes(ip) + tcp_bytes(t);
    lemma_ipv4_round_trip(ip);
    lemma_tcp_round_trip(t);
    lemma_ipv4_bytes_valid(ip);
    assert(b.subrange(0, 20) =~= ipv4_bytes(ip));
    assert(b.subrange(20, b.len() as int) =~= tcp_bytes(t));
    assert forall|i: int| 0 <= i < 20 implies b[i] == ipv4_bytes(ip)[i] by {}
    assert(ipv4_fields(b) == ipv4_fields(ipv4_bytes(ip)));
}

/// A built UDP probe decodes to the headers it was built from.
pub proof fn lemma_udp_probe_round_trip(src: Ipv4Addr, sport: u16, dst: Ipv4Addr, dport: u16, id: u16)
    ensures
        ({
            let ip = probe_ipv4(src, dst, PROTO_UDP, 28, id);
            let u = probe_udp(src, dst, sport, dport);
            let b = ipv4_bytes(ip) + udp_bytes(u);
            &&& valid_ipv4(b)
            &&& ipv4_header_len(b) == 20
            &&& ipv4_fields(b) == ip
            &&& udp_fields(b.subrange(20, b.len() as int)) == u
        }),
{
    let ip = probe_ipv4(src, dst, PROTO_UDP, 28, id);
    let u = probe_udp(src, dst, sport, dport);
    let b = ipv4_bytes(ip) + udp_bytes(u);
    lemma_ipv4_round_trip(ip);
    lemma_udp_round_trip(u);
    lemma_ipv4_bytes_valid(ip);
    assert(b.subrange(20, b.len() as int) =~= udp_bytes(u));
    assert(ipv4_fields(b) == ipv4_fields(ipv4_bytes(ip)));
}

} // verus!
