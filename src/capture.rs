//! The match predicate of the capture channel: which inbound IPv4 packet
//! answers an outstanding probe, and what it says.
use vstd::prelude::*;
use vstd::slice::slice_subrange;
use crate::addr::Ipv4Addr;
use crate::packet::{
    PROTO_ICMP, PROTO_TCP, PROTO_UDP, TCP_ACK, TCP_RST, TCP_SYN, decode_ipv4, decode_tcp,
    has_flag, ipv4_fields, ipv4_header_len, read16, tcp_fields, valid_ipv4,
};
use crate::status::Observation;

verus! {

/// What identifies an outstanding probe: its addresses, its ports, its IP
/// protocol, and whether replies must carry its ports (a TCP or UDP port
/// probe) or only its protocol (an IP protocol probe).
#[derive(Debug, Clone, Copy, PartialEq, Eq, Structural)]
pub struct ProbeKey {
    pub src: Ipv4Addr,
    pub src_port: u16,
    pub dst: Ipv4Addr,
    pub dst_port: u16,
    pub protocol: u8,
    pub match_ports: bool,
}

/// ICMP type of a destination-unreachable message.
pub const ICMP_DEST_UNREACHABLE: u8 = 3;

/// Whether replies to probe `k` are matched on ports too.
pub open spec fn has_ports(k: ProbeKey) -> bool {
    k.match_ports && (k.protocol == PROTO_TCP || k.protocol == PROTO_UDP)
}

/// Whether `q`, the packet quoted in an ICMP error, is the probe: same
/// protocol and addresses, and for a TCP or UDP port probe the same ports.
pub open spec fn quotes_probe(q: Seq<u8>, k: ProbeKey) -> bool {
    &&& valid_ipv4(q)
    &&& ipv4_fields(q).protocol == k.protocol
    &&& ipv4_fields(q).source == k.src
    &&& ipv4_fields(q).destination == k.dst
    &&& has_ports(k) ==> {
        let hl = ipv4_header_len(q);
        &&& q.len() >= hl + 4
        &&& read16(q, hl) == k.src_port
        &&& read16(q, hl + 2) == k.dst_port
    }
}

/// What an inbound IPv4 packet says of probe `k`, or `None` where it does
/// not answer it. An ICMP destination-unreachable that quotes the probe
/// comes first; then a packet of the probe's protocol from its destination
/// to its source, with ports swapped for a TCP or UDP port probe.
pub open spec fn observe(frame: Seq<u8>, k: ProbeKey) -> Option<Observation> {
    if !valid_ipv4(frame) {
        None
    } else {
        let ip = ipv4_fields(frame);
        let rest = frame.subrange(ipv4_header_len(frame), frame.len() as int);
        if ip.protocol == PROTO_ICMP && ip.destination == k.src && rest.len() >= 8 && rest[0]
            == ICMP_DEST_UNREACHABLE && quotes_probe(rest.subrange(8, rest.len() as int), k) {
            Some(Observation::IcmpUnreachable { code: rest[1] })
        } else if ip.protocol == k.protocol && ip.source == k.dst && ip.destination == k.src {
            if k.match_ports && k.protocol == PROTO_TCP {
                if rest.len() >= 20 && read16(rest, 0) == k.dst_port && read16(rest, 2) == k.src_port {
                    let t = tcp_fields(rest);
                    Some(
                        Observation::Tcp {
                            syn: has_flag(t.flags, TCP_SYN),
                            ack: has_flag(t.flags, TCP_ACK),
                            rst: has_flag(t.flags, TCP_RST),
                            window: t.window,
                        },
                    )
                } else {
                    None
                }
            } else if k.match_ports && k.protocol == PROTO_UDP {
                if rest.len() >= 8 && read16(rest, 0) == k.dst_port && read16(rest, 2) == k.src_port {
                    Some(Observation::Udp)
                } else {
                    None
                }
            } else {
                Some(Observation::ProtocolReply)
            }
        } else {
            None
        }
    }
}

pub(crate) fn read_u16(b: &[u8], i: usize) -> (r: u16)
    requires
        i + 2 <= b@.len(),
    ensures
        r == read16(b@, i as int),
{
    (b[i] as u16) * 256 + b[i + 1] as u16
}

pub(crate) fn flag_set(flags: u8, bit: u8) -> (r: bool)
    requires
        bit > 0,
    ensures
        r == has_flag(flags, bit),
{
    (flags / bit) % 2 == 1
}

/// Whether the packet quoted in an ICMP error is the probe.
fn quoted_probe(q: &[u8], k: ProbeKey) -> (r: bool)
    ensures
        r == quotes_probe(q@, k),
{
    match decode_ipv4(q) {
        None => false,
        Some(h) => {
            if h.protocol != k.protocol || h.source != k.src || h.destination != k.dst {
                return false;
            }
            if k.match_ports && (k.protocol == PROTO_TCP || k.protocol == PROTO_UDP) {
                let hl = (q[0] % 16) as usize * 4;
                q.len() >= hl + 4 && read_u16(q, hl) == k.src_port && read_u16(q, hl + 2)
                    == k.dst_port
            } else {
                true
            }
        },
    }
}

/// Reads an inbound IPv4 packet against probe `k`.
pub fn observe_frame(frame: &[u8], k: ProbeKey) -> (r: Option<Observation>)
    ensures
        r == observe(frame@, k),
{
    let ip = match decode_ipv4(frame) {
        None => return None,
        Some(h) => h,
    };
    let hl = (frame[0] % 16) as usize * 4;
    let rest = slice_subrange(frame, hl, frame.len());
    if ip.protocol == PROTO_ICMP && ip.destination == k.src && rest.len() >= 8 && rest[0]
        == ICMP_DEST_UNREACHABLE {
        let quoted = slice_subrange(rest, 8, rest.len());
        if quoted_probe(quoted, k) {
            return Some(Observation::IcmpUnreachable { code: rest[1] });
        }
    }
    if ip.protocol == k.protocol && ip.source == k.dst && ip.destination == k.src {
        if k.match_ports && k.protocol == PROTO_TCP {
            if rest.len() >= 20 && read_u16(rest, 0) == k.dst_port && read_u16(rest, 2) == k.src_port {
                match decode_tcp(rest) {
                    Some(t) => Some(
                        Observation::Tcp {
                            syn: flag_set(t.flags, TCP_SYN),
                            ack: flag_set(t.flags, TCP_ACK),
                            rst: flag_set(t.flags, TCP_RST),
                            window: t.window,
                        },
                    ),
                    None => None,
                }
            } else {
                None
            }
        } else if k.match_ports && k.protocol == PROTO_UDP {
            if rest.len() >= 8 && read_u16(rest, 0) == k.dst_port && read_u16(rest, 2) == k.src_port {
                Some(Observation::Udp)
            } else {
                None
            }
        } else {
            Some(Observation::ProtocolReply)
        }
    } else {
        None
    }
}

} // verus!
