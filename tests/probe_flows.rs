use pistol::addr::{IpAddr, Ipv4Addr, MacAddr};
use pistol::arp::{arp_reply_mac, build_arp_request};
use pistol::capture::{observe_frame, ProbeKey};
use pistol::engine::{probe_key, probe_packet, teardown_packet};
use pistol::oui::get_nmap_mac_prefixes;
use pistol::packet::{build_tcp_probe, build_udp_probe, put_ipv4, Ipv4Header, TCP_ACK, TCP_RST, TCP_SYN};
use pistol::probe::{capture_next, IdleAction, IdleEvent, IdleScanResults, IdleState};
use pistol::results::{aggregate_ports, arp_results, ArpOutcome, PortOutcome};
use pistol::status::{classify, Observation, ScanMethod, TargetScanStatus};

fn us() -> Ipv4Addr {
    Ipv4Addr::new(10, 0, 0, 1)
}

fn target() -> Ipv4Addr {
    Ipv4Addr::new(10, 0, 0, 5)
}

/// A TCP reply from the target's port back to our probing port.
fn tcp_reply(dport: u16, sport: u16, flags: u8, window: u16) -> Vec<u8> {
    let mut b = build_tcp_probe(target(), dport, us(), sport, flags, 7, 1);
    // advertised window of the reply
    b[34] = (window >> 8) as u8;
    b[35] = (window & 0xff) as u8;
    b
}

/// An ICMP destination-unreachable from the target quoting `quoted`.
fn icmp_unreachable(code: u8, quoted: &[u8]) -> Vec<u8> {
    let total = (20 + 8 + quoted.len()) as u16;
    let h = Ipv4Header {
        total_length: total,
        identification: 9,
        dont_fragment: false,
        ttl: 64,
        protocol: 1,
        checksum: 0,
        source: target(),
        destination: us(),
    };
    let mut b = Vec::new();
    put_ipv4(&mut b, &h);
    b.extend_from_slice(&[3, code, 0, 0, 0, 0, 0, 0]);
    b.extend_from_slice(quoted);
    b
}

fn single_result(method: ScanMethod, port: u16, frame: Option<Vec<u8>>, rtt: Option<u64>) -> (TargetScanStatus, Option<u64>) {
    let sport = 50000;
    let key = probe_key(method, us(), sport, target(), port, 0);
    let obs = match frame {
        Some(f) => observe_frame(&f, key).expect("frame should match the probe"),
        None => capture_next(100_000, 100_000, None::<Observation>).unwrap().unwrap_or(Observation::NoReply),
    };
    let status = classify(method, obs);
    let reports = vec![Ok(PortOutcome { addr: IpAddr::V4(target()), port, status, rtt })];
    let res = aggregate_ports(&reports).unwrap();
    let ps = res.get(IpAddr::V4(target())).unwrap();
    assert_eq!(ps.status.len(), 1);
    (ps.get(port).unwrap(), ps.rtt)
}

#[test]
fn syn_scan_synack_is_open() {
    let (s, rtt) = single_result(ScanMethod::Syn, 22, Some(tcp_reply(22, 50000, TCP_SYN | TCP_ACK, 64240)), Some(1200));
    assert_eq!(s, TargetScanStatus::Open);
    assert_eq!(rtt, Some(1200));
}

#[test]
fn syn_scan_rst_is_closed() {
    let (s, _) = single_result(ScanMethod::Syn, 81, Some(tcp_reply(81, 50000, TCP_RST | TCP_ACK, 0)), Some(900));
    assert_eq!(s, TargetScanStatus::Closed);
}

#[test]
fn udp_scan_port_unreachable_is_closed() {
    let probe = build_udp_probe(us(), 50000, target(), 53, 77);
    let frame = icmp_unreachable(3, &probe);
    let (s, _) = single_result(ScanMethod::Udp, 53, Some(frame), Some(500));
    assert_eq!(s, TargetScanStatus::Closed);
}

#[test]
fn udp_scan_silence_is_open_or_filtered() {
    let (s, rtt) = single_result(ScanMethod::Udp, 53, None, None);
    assert_eq!(s, TargetScanStatus::OpenOrFiltered);
    assert_eq!(rtt, None);
}

#[test]
fn ack_scan_rst_is_unfiltered() {
    let (s, _) = single_result(ScanMethod::Ack, 80, Some(tcp_reply(80, 50000, TCP_RST, 0)), Some(300));
    assert_eq!(s, TargetScanStatus::Unfiltered);
}

#[test]
fn arp_scan_finds_one_vendor() {
    let db = "# vendor table\n001122 ACME Networks\nAABBCC Other Corp\n";
    let table = get_nmap_mac_prefixes(db);
    assert_eq!(table.len(), 2);
    let own = MacAddr(0x02, 0, 0, 0, 0, 1);
    let live = MacAddr(0x00, 0x11, 0x22, 0x33, 0x44, 0x55);
    // the live host's reply, as the capture channel sees it
    let mut reply = build_arp_request(live, Ipv4Addr::new(192, 168, 1, 2), Ipv4Addr::new(192, 168, 1, 1));
    reply[21] = 2;
    assert_eq!(arp_reply_mac(&reply, Ipv4Addr::new(192, 168, 1, 2)), Some(live));
    assert_eq!(arp_reply_mac(&reply, Ipv4Addr::new(192, 168, 1, 3)), None);
    let outcomes: Vec<ArpOutcome> = (0u8..4)
        .map(|d| ArpOutcome {
            addr: Ipv4Addr::new(192, 168, 1, d),
            mac: if d == 2 { arp_reply_mac(&reply, Ipv4Addr::new(192, 168, 1, d)) } else { None },
        })
        .collect();
    let res = arp_results(&outcomes, &vec![own], &table);
    assert_eq!(res.len(), 1);
    let host = res.get(Ipv4Addr::new(192, 168, 1, 2)).unwrap();
    assert_eq!(host.mac_addr, live);
    assert_eq!(host.ouis, "ACME Networks");
}

#[test]
fn idle_scan_two_steps_is_open() {
    let obs = IdleScanResults { zombie_ip_id_1: 100, zombie_ip_id_2: 102 };
    assert_eq!(obs.verdict(), Ok(TargetScanStatus::Open));
    let (s, a) = IdleState::Probe1.step(IdleEvent::ZombieReply { ip_id: 100 });
    assert_eq!(a, IdleAction::SendSpoofed);
    let (s, a) = s.step(IdleEvent::Sent);
    assert_eq!(a, IdleAction::ProbeZombie);
    let (s, a) = s.step(IdleEvent::ZombieReply { ip_id: 102 });
    assert_eq!(s, IdleState::Done);
    assert_eq!(a, IdleAction::Report { status: TargetScanStatus::Open, ip_ids: obs });
}

#[test]
fn syn_probe_packet_matches_its_reply_key() {
    let key: ProbeKey = probe_key(ScanMethod::Syn, us(), 50000, target(), 22, 0);
    let pkt = probe_packet(ScanMethod::Syn, key, 1234, 42).unwrap();
    assert_eq!(pkt.len(), 40);
    assert_eq!(pkt[33], TCP_SYN);
    // our own probe is not a reply to itself
    assert_eq!(observe_frame(&pkt, key), None);
    assert!(probe_packet(ScanMethod::Connect, key, 1, 1).is_none());
    let _ = Observation::NoReply;
}

#[test]
fn syn_ack_gets_a_teardown_rst() {
    let key = probe_key(ScanMethod::Syn, us(), 50000, target(), 22, 0);
    let synack = Observation::Tcp { syn: true, ack: true, rst: false, window: 100 };
    let rst = teardown_packet(ScanMethod::Syn, key, synack, 99, 5).unwrap();
    assert_eq!(rst.len(), 40);
    assert_eq!(rst[33], TCP_RST);
    assert!(teardown_packet(ScanMethod::Ack, key, synack, 99, 5).is_none());
    assert!(teardown_packet(ScanMethod::Syn, key, Observation::NoReply, 99, 5).is_none());
}
