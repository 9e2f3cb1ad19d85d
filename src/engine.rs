//! What each probe engine sends, and the key its reply is matched on.
use vstd::prelude::*;
use crate::addr::Ipv4Addr;
use crate::capture::ProbeKey;
use crate::packet::{
    PROTO_TCP, PROTO_UDP, TCP_ACK, TCP_RST, TCP_SYN, build_ip_protocol_probe, build_tcp_probe,
    build_udp_probe, ipv4_bytes, probe_flags, probe_ipv4, probe_tcp, probe_udp, tcp_bytes,
    tcp_probe_flags, udp_bytes,
};
use crate::status::{Observation, ScanMethod};

verus! {

/// The IP protocol that a method's probes and replies use; `protocol` is
/// the one an IP protocol scan asks for.
pub open spec fn method_protocol(m: ScanMethod, protocol: u8) -> u8 {
    match m {
        ScanMethod::Udp => PROTO_UDP,
        ScanMethod::IpProcotol => protocol,
        _ => PROTO_TCP,
    }
}

/// The key that replies to a probe of method `m` are matched on.
pub fn probe_key(m: ScanMethod, src: Ipv4Addr, src_port: u16, dst: Ipv4Addr, dst_port: u16, protocol: u8) -> (r: ProbeKey)
    ensures
        r == (ProbeKey {
            src,
            src_port,
            dst,
            dst_port,
            protocol: method_protocol(m, protocol),
            match_ports: m != ScanMethod::IpProcotol,
        }),
{
    let p = match m {
        ScanMethod::Udp => PROTO_UDP,
        ScanMethod::IpProcotol => protocol,
        _ => PROTO_TCP,
    };
    ProbeKey { src, src_port, dst, dst_port, protocol: p, match_ports: m != ScanMethod::IpProcotol }
}

/// The packet a raw-socket method sends for probe `k`: a TCP segment with
/// the method's flags, an empty UDP datagram, or a bare IPv4 header. The
/// connect scan (which the operating system performs) and the idle scan
/// (which sends its own packets) have none.
pub open spec fn probe_bytes(m: ScanMethod, k: ProbeKey, seq: u32, id: u16) -> Option<Seq<u8>> {
    match m {
        ScanMethod::Connect | ScanMethod::Idle => None,
        ScanMethod::Udp => Some(
            ipv4_bytes(probe_ipv4(k.src, k.dst, PROTO_UDP, 28, id)) + udp_bytes(
                probe_udp(k.src, k.dst, k.src_port, k.dst_port),
            ),
        ),
        ScanMethod::IpProcotol => Some(ipv4_bytes(probe_ipv4(k.src, k.dst, k.protocol, 20, id))),
        _ => Some(
            ipv4_bytes(probe_ipv4(k.src, k.dst, PROTO_TCP, 40, id)) + tcp_bytes(
                probe_tcp(k.src, k.dst, k.src_port, k.dst_port, probe_flags(m), seq),
            ),
        ),
    }
}

/// Builds the packet that method `m` sends for probe `k`, with initial
/// sequence number `seq` and IP identification `id`.
pub fn probe_packet(m: ScanMethod, k: ProbeKey, seq: u32, id: u16) -> (r: Option<Vec<u8>>)
    ensures
        match r {
            Some(b) => probe_bytes(m, k, seq, id) == Some(b@),
            None => probe_bytes(m, k, seq, id) is None,
        },
{
    match m {
        ScanMethod::Connect | ScanMethod::Idle => None,
        ScanMethod::Udp => Some(build_udp_probe(k.src, k.src_port, k.dst, k.dst_port, id)),
        ScanMethod::IpProcotol => Some(build_ip_protocol_probe(k.src, k.dst, k.protocol, id)),
        _ => Some(build_tcp_probe(k.src, k.src_port, k.dst, k.dst_port, tcp_probe_flags(m), seq, id)),
    }
}

/// Whether an observation is a SYN/ACK.
pub open spec fn is_syn_ack(o: Observation) -> bool {
    match o {
        Observation::Tcp { syn, ack, rst, .. } => syn && ack && !rst,
        _ => false,
    }
}

/// The RST that tears down the half-open connection a SYN scan's probe
/// `k` got a SYN/ACK for; nothing for another method or observation.
pub fn teardown_packet(m: ScanMethod, k: ProbeKey, o: Observation, seq: u32, id: u16) -> (r: Option<Vec<u8>>)
    ensures
        match r {
            Some(b) => m == ScanMethod::Syn && is_syn_ack(o) && b@ == ipv4_bytes(
                probe_ipv4(k.src, k.dst, PROTO_TCP, 40, id),
            ) + tcp_bytes(probe_tcp(k.src, k.dst, k.src_port, k.dst_port, TCP_RST, seq)),
            None => !(m == ScanMethod::Syn && is_syn_ack(o)),
        },
{
    let syn_ack = match o {
        Observation::Tcp { syn, ack, rst, .. } => syn && ack && !rst,
        _ => false,
    };
    if m == ScanMethod::Syn && syn_ack {
        Some(build_tcp_probe(k.src, k.src_port, k.dst, k.dst_port, TCP_RST, seq, id))
    } else {
        None
    }
}

/// The SYN/ACK that an idle scan sends to the zombie to read its IP
/// identification.
pub fn zombie_probe_packet(src: Ipv4Addr, src_port: u16, zombie: Ipv4Addr, zombie_port: u16, seq: u32, id: u16) -> (r: Vec<u8>)
    ensures
        r@ == ipv4_bytes(probe_ipv4(src, zombie, PROTO_TCP, 40, id)) + tcp_bytes(
            probe_tcp(src, zombie, src_port, zombie_port, (TCP_SYN + TCP_ACK) as u8, seq),
        ),
{
    build_tcp_probe(src, src_port, zombie, zombie_port, TCP_SYN + TCP_ACK, seq, id)
}

/// The SYN that an idle scan sends to the target with the zombie as source.
pub fn spoofed_syn_packet(zombie: Ipv4Addr, zombie_port: u16, dst: Ipv4Addr, dst_port: u16, seq: u32, id: u16) -> (r: Vec<u8>)
    ensures
        r@ == ipv4_bytes(probe_ipv4(zombie, dst, PROTO_TCP, 40, id)) + tcp_bytes(
            probe_tcp(zombie, dst, zombie_port, dst_port, TCP_SYN, seq),
        ),
{
    build_tcp_probe(zombie, zombie_port, dst, dst_port, TCP_SYN, seq, id)
}

} // verus!
