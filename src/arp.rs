//! ARP requests on Ethernet, and the replies that answer them.
use vstd::prelude::*;
use crate::addr::{Ipv4Addr, MacAddr};
use crate::packet::{be16, be32, push16, push32, read16, read32};

verus! {

/// The EtherType of ARP.
pub const ETHERTYPE_ARP: u16 = 0x0806;
/// The EtherType of IPv4.
pub const ETHERTYPE_IPV4: u16 = 0x0800;
/// The EtherType of IPv6.
pub const ETHERTYPE_IPV6: u16 = 0x86dd;
/// ARP operation codes.
pub const ARP_REQUEST: u16 = 1;
pub const ARP_REPLY: u16 = 2;

/// The six bytes of a hardware address.
pub open spec fn mac_bytes(m: MacAddr) -> Seq<u8> {
    seq![m.0, m.1, m.2, m.3, m.4, m.5]
}

/// The hardware address in the six bytes at `i`.
pub open spec fn read_mac(b: Seq<u8>, i: int) -> MacAddr {
    MacAddr(b[i], b[i + 1], b[i + 2], b[i + 3], b[i + 4], b[i + 5])
}

/// The forty-two bytes of a broadcast ARP request from `src_mac`/`src_ip`
/// asking for `dst_ip`.
pub open spec fn arp_request_bytes(src_mac: MacAddr, src_ip: Ipv4Addr, dst_ip: Ipv4Addr) -> Seq<u8> {
    mac_bytes(MacAddr(0xff, 0xff, 0xff, 0xff, 0xff, 0xff)) + mac_bytes(src_mac) + be16(ETHERTYPE_ARP)
        + be16(1) + be16(ETHERTYPE_IPV4) + seq![6u8, 4u8] + be16(ARP_REQUEST) + mac_bytes(src_mac)
        + be32(src_ip.0) + mac_bytes(MacAddr(0, 0, 0, 0, 0, 0)) + be32(dst_ip.0)
}

/// The payload of an Ethernet frame of type `ethertype`.
pub open spec fn ethernet_payload_of(frame: Seq<u8>, ethertype: u16) -> Option<Seq<u8>> {
    if frame.len() >= 14 && read16(frame, 12) == ethertype {
        Some(frame.subrange(14, frame.len() as int))
    } else {
        None
    }
}

/// The payload of an Ethernet frame, where the frame has type `ethertype`.
pub fn ethernet_payload(frame: &[u8], ethertype: u16) -> (r: Option<&[u8]>)
    ensures
        match r {
            Some(p) => ethernet_payload_of(frame@, ethertype) == Some(p@),
            None => ethernet_payload_of(frame@, ethertype) is None,
        },
{
    if frame.len() >= 14 && (frame[12] as u16) * 256 + frame[13] as u16 == ethertype {
        Some(vstd::slice::slice_subrange(frame, 14, frame.len()))
    } else {
        None
    }
}

/// The hardware address that an Ethernet frame gives for `target`: the
/// sender's, where the frame is an ARP reply whose sender protocol address
/// is `target`.
pub open spec fn arp_answer(frame: Seq<u8>, target: Ipv4Addr) -> Option<MacAddr> {
    if frame.len() >= 42 && read16(frame, 12) == ETHERTYPE_ARP && read16(frame, 20) == ARP_REPLY
        && read32(frame, 28) == target.0 {
        Some(read_mac(frame, 22))
    } else {
        None
    }
}

fn push_mac(buf: &mut Vec<u8>, m: MacAddr)
    ensures
        final(buf)@ == old(buf)@ + mac_bytes(m),
{
    buf.push(m.0);
    buf.push(m.1);
    buf.push(m.2);
    buf.push(m.3);
    buf.push(m.4);
    buf.push(m.5);
    assert(buf@ =~= old(buf)@ + mac_bytes(m));
}

/// Builds a broadcast ARP request for `dst_ip`.
pub fn build_arp_request(src_mac: MacAddr, src_ip: Ipv4Addr, dst_ip: Ipv4Addr) -> (r: Vec<u8>)
    ensures
        r@ == arp_request_bytes(src_mac, src_ip, dst_ip),
        r@.len() == 42,
{
    let mut b: Vec<u8> = Vec::new();
    push_mac(&mut b, MacAddr::broadcast());
    push_mac(&mut b, src_mac);
    push16(&mut b, ETHERTYPE_ARP);
    push16(&mut b, 1);
    push16(&mut b, ETHERTYPE_IPV4);
    b.push(6u8);
    b.push(4u8);
    push16(&mut b, ARP_REQUEST);
    push_mac(&mut b, src_mac);
    push32(&mut b, src_ip.0);
    push_mac(&mut b, MacAddr(0, 0, 0, 0, 0, 0));
    push32(&mut b, dst_ip.0);
    assert(b@ =~= arp_request_bytes(src_mac, src_ip, dst_ip));
    b
}

/// The sender's hardware address, where `frame` is an ARP reply from
/// `target`.
pub fn arp_reply_mac(frame: &[u8], target: Ipv4Addr) -> (r: Option<MacAddr>)
    ensures
        r == arp_answer(frame@, target),
{
    if frame.len() < 42 {
        return None;
    }
    let ethertype = (frame[12] as u16) * 256 + frame[13] as u16;
    let op = (frame[20] as u16) * 256 + frame[21] as u16;
    let spa = (frame[28] as u32) * 0x1000000 + (frame[29] as u32) * 0x10000 + (frame[30] as u32)
        * 0x100 + frame[31] as u32;
    if ethertype == ETHERTYPE_ARP && op == ARP_REPLY && spa == target.0 {
        Some(MacAddr(frame[22], frame[23], frame[24], frame[25], frame[26], frame[27]))
    } else {
        None
    }
}

} // verus!
