use pistol::addr::{IpAddr, Ipv4Addr, Ipv6Addr, MacAddr};
use pistol::arp::ethernet_payload;
use pistol::capture::{observe_frame, ProbeKey};
use pistol::engine::probe_key;
use pistol::error::ScanError;
use pistol::iface::{find_source_ipv4, find_source_ipv6, net_contains, resolve_route, Interface, Ipv4Net};
use pistol::oui::{lookup_vendor, mac_prefix, get_nmap_mac_prefixes};
use pistol::packet::{
    build_tcp_probe, build_udp_probe, decode_ipv4, decode_tcp, decode_udp, put_ipv4, put_tcp, put_udp,
    Ipv4Header, TcpHeader, UdpHeader, TCP_RST,
};
use pistol::packet6::{build_tcp_probe6, decode_ipv6, observe_frame6, probe_key6, put_ipv6, Ipv6Header};
use pistol::probe::{capture_next, IdleAction, IdleEvent, IdleScanResults, IdleState};
use pistol::results::{aggregate_ports, aggregate_protocols, arp_results, ArpOutcome, PortOutcome, ProtocolOutcome};
use pistol::status::{classify, status_label, Observation, ScanMethod, ScanMethod6, TargetScanStatus};
use pistol::target::{collect_port_results, port_from_draw, check_options, plan_arp_scan, plan_scan, pool_size, probe_timeout, random_port, Host, Host6, Target};

use TargetScanStatus::{Closed, ClosedOrFiltered, Filtered, Open, OpenOrFiltered, Unfiltered, Unreachable};

const METHODS: [ScanMethod; 10] = [
    ScanMethod::Connect,
    ScanMethod::Syn,
    ScanMethod::Fin,
    ScanMethod::Ack,
    ScanMethod::Null,
    ScanMethod::Xmas,
    ScanMethod::Window,
    ScanMethod::Maimon,
    ScanMethod::Udp,
    ScanMethod::IpProcotol,
];

fn observations() -> Vec<Observation> {
    let mut v = vec![
        Observation::NoReply,
        Observation::Udp,
        Observation::ProtocolReply,
        Observation::ConnectEstablished,
        Observation::ConnectRefused,
    ];
    for code in [0u8, 1, 2, 3, 9, 10, 13] {
        v.push(Observation::IcmpUnreachable { code });
    }
    for bits in 0u8..8 {
        for window in [0u16, 1024] {
            v.push(Observation::Tcp { syn: bits & 1 != 0, ack: bits & 2 != 0, rst: bits & 4 != 0, window });
        }
    }
    v
}

fn allowed(m: ScanMethod) -> Vec<TargetScanStatus> {
    match m {
        ScanMethod::Connect | ScanMethod::Syn | ScanMethod::Window => vec![Open, Closed, Filtered],
        ScanMethod::Fin | ScanMethod::Null | ScanMethod::Xmas => vec![Closed, OpenOrFiltered, Filtered],
        ScanMethod::Ack => vec![Unfiltered, Filtered],
        ScanMethod::Maimon => vec![Closed, OpenOrFiltered],
        ScanMethod::Idle => vec![Open, ClosedOrFiltered],
        ScanMethod::Udp | ScanMethod::IpProcotol => vec![Open, Closed, Filtered, OpenOrFiltered],
    }
}

fn v4(a: u8, b: u8, c: u8, d: u8) -> Ipv4Addr {
    Ipv4Addr::new(a, b, c, d)
}

#[test]
fn verdicts_stay_in_each_methods_set() {
    for m in METHODS {
        for o in observations() {
            let s = classify(m, o);
            assert!(allowed(m).contains(&s), "{:?} gave {:?} for {:?}", m, s, o);
        }
    }
    for second in [101u16, 102, 103, 100] {
        if let Ok(s) = (IdleScanResults { zombie_ip_id_1: 100, zombie_ip_id_2: second }).verdict() {
            assert!(allowed(ScanMethod::Idle).contains(&s));
        }
    }
}

#[test]
fn verdict_table_rows() {
    assert_eq!(classify(ScanMethod::Connect, Observation::ConnectEstablished), Open);
    assert_eq!(classify(ScanMethod::Connect, Observation::ConnectRefused), Closed);
    assert_eq!(classify(ScanMethod::Connect, Observation::NoReply), Filtered);
    assert_eq!(classify(ScanMethod::Syn, Observation::IcmpUnreachable { code: 13 }), Filtered);
    assert_eq!(classify(ScanMethod::Fin, Observation::Tcp { syn: false, ack: true, rst: true, window: 0 }), Closed);
    assert_eq!(classify(ScanMethod::Null, Observation::NoReply), OpenOrFiltered);
    assert_eq!(classify(ScanMethod::Xmas, Observation::IcmpUnreachable { code: 3 }), Filtered);
    assert_eq!(classify(ScanMethod::Ack, Observation::IcmpUnreachable { code: 3 }), Filtered);
    let rst = |window| Observation::Tcp { syn: false, ack: false, rst: true, window };
    assert_eq!(classify(ScanMethod::Window, rst(512)), Open);
    assert_eq!(classify(ScanMethod::Window, rst(0)), Closed);
    assert_eq!(classify(ScanMethod::Window, Observation::NoReply), Filtered);
    assert_eq!(classify(ScanMethod::Maimon, rst(0)), Closed);
    assert_eq!(classify(ScanMethod::Maimon, Observation::NoReply), OpenOrFiltered);
    assert_eq!(classify(ScanMethod::Udp, Observation::IcmpUnreachable { code: 1 }), Filtered);
    assert_eq!(classify(ScanMethod::Udp, Observation::Udp), Open);
    assert_eq!(classify(ScanMethod::IpProcotol, Observation::ProtocolReply), Open);
    assert_eq!(classify(ScanMethod::IpProcotol, Observation::IcmpUnreachable { code: 2 }), Closed);
    assert_eq!(classify(ScanMethod::IpProcotol, Observation::IcmpUnreachable { code: 3 }), Filtered);
    assert_eq!(classify(ScanMethod::IpProcotol, Observation::NoReply), OpenOrFiltered);
    assert_eq!(classify(ScanMethod6::Syn.as_method(), rst(0)), Closed);
}

#[test]
fn every_reported_host_has_a_verdict_and_first_rtt_wins() {
    let a = IpAddr::V4(v4(10, 0, 0, 5));
    let b = IpAddr::V6(Ipv6Addr(1));
    let reports = vec![
        Ok(PortOutcome { addr: a, port: 22, status: Open, rtt: Some(0) }),
        Ok(PortOutcome { addr: a, port: 80, status: Closed, rtt: Some(500) }),
        Ok(PortOutcome { addr: b, port: 53, status: OpenOrFiltered, rtt: None }),
        Ok(PortOutcome { addr: a, port: 22, status: Filtered, rtt: Some(700) }),
    ];
    let res = aggregate_ports(&reports).unwrap();
    let pa = res.get(a).unwrap();
    assert_eq!(pa.status.len(), 2);
    assert_eq!(pa.get(22), Some(Filtered));
    assert_eq!(pa.get(80), Some(Closed));
    assert_eq!(pa.rtt, Some(500));
    let pb = res.get(b).unwrap();
    assert_eq!(pb.status.len(), 1);
    assert_eq!(pb.rtt, None);
    assert!(res.get(IpAddr::V4(v4(10, 0, 0, 6))).is_none());
}

#[test]
fn protocol_results_merge() {
    let a = v4(10, 0, 0, 5);
    let reports = vec![
        Ok(ProtocolOutcome { addr: a, protocol: 17, status: Open, rtt: Some(40) }),
        Ok(ProtocolOutcome { addr: a, protocol: 47, status: Closed, rtt: Some(90) }),
    ];
    let res = aggregate_protocols(&reports).unwrap();
    let p = res.get(a).unwrap();
    assert_eq!(p.get(17), Some(Open));
    assert_eq!(p.get(47), Some(Closed));
    assert_eq!(p.rtt, Some(40));
}

#[test]
fn first_error_aborts_the_merge() {
    let a = IpAddr::V4(v4(10, 0, 0, 5));
    let reports = vec![
        Ok(PortOutcome { addr: a, port: 22, status: Open, rtt: None }),
        Err(ScanError::SendFailed),
        Err(ScanError::CaptureFailed),
    ];
    assert_eq!(aggregate_ports(&reports).err(), Some(ScanError::SendFailed));
}

#[test]
fn arp_results_are_bounded_and_skip_own_mac() {
    let own = MacAddr(0x02, 0, 0, 0, 0, 1);
    let other = MacAddr(0xaa, 0xbb, 0xcc, 1, 2, 3);
    let outcomes = vec![
        ArpOutcome { addr: v4(192, 168, 1, 1), mac: Some(own) },
        ArpOutcome { addr: v4(192, 168, 1, 2), mac: Some(other) },
        ArpOutcome { addr: v4(192, 168, 1, 3), mac: None },
    ];
    let res = arp_results(&outcomes, &vec![own], &Vec::new());
    assert!(res.len() <= outcomes.len());
    assert_eq!(res.len(), 1);
    assert!(res.get(v4(192, 168, 1, 1)).is_none());
    assert_eq!(res.get(v4(192, 168, 1, 2)).unwrap().ouis, "");
}

#[test]
fn mac_prefix_is_six_uppercase_hex_digits() {
    for m in [MacAddr(0, 0, 0, 1, 2, 3), MacAddr(0x0a, 0xb, 0xff, 0, 0, 0), MacAddr(0xde, 0xad, 0xbe, 0xef, 0, 0)] {
        let p = mac_prefix(m);
        assert_eq!(p.len(), 6);
        assert!(p.chars().all(|c| c.is_ascii_digit() || ('A'..='F').contains(&c)));
    }
    assert_eq!(mac_prefix(MacAddr(0x0a, 0xb, 0xff, 0, 0, 0)), "0A0BFF");
    assert_eq!(mac_prefix(MacAddr(0, 0, 0, 1, 2, 3)), "000000");
}

#[test]
fn vendor_table_reads_lines() {
    let db = "# comment 001122 X\r\n001122 ACME  Networks Inc\r\n\r\nNOSPACE\nZZ vendor\n00112 Short\n00112G Bad digit\n0a0bff Lower\n0A0BFF Second\n0A0BFF Third\n";
    let table = get_nmap_mac_prefixes(db);
    assert_eq!(table.len(), 3);
    assert_eq!(table[0].prefix, "001122");
    assert_eq!(table[0].ouis, "ACME  Networks Inc");
    assert_eq!(lookup_vendor(&table, MacAddr(0x0a, 0x0b, 0xff, 9, 9, 9)), "Third");
    assert_eq!(lookup_vendor(&table, MacAddr(0x00, 0x11, 0x22, 0, 0, 0)), "ACME  Networks Inc");
    assert_eq!(lookup_vendor(&table, MacAddr(1, 2, 3, 4, 5, 6)), "");
}

#[test]
fn headers_round_trip() {
    let ip = Ipv4Header {
        total_length: 1500,
        identification: 0xbeef,
        dont_fragment: true,
        ttl: 63,
        protocol: 6,
        checksum: 0x1234,
        source: v4(192, 168, 72, 128),
        destination: v4(10, 255, 0, 1),
    };
    let mut b = Vec::new();
    put_ipv4(&mut b, &ip);
    assert_eq!(b.len(), 20);
    assert_eq!(decode_ipv4(&b), Some(ip));
    let t = TcpHeader {
        source: 57831,
        destination: 80,
        sequence: 0xdeadbeef,
        acknowledgement: 7,
        flags: 0x12,
        window: 65535,
        checksum: 0xabcd,
        urgent_ptr: 3,
    };
    let mut tb = Vec::new();
    put_tcp(&mut tb, &t);
    assert_eq!(decode_tcp(&tb), Some(t));
    let u = UdpHeader { source: 1, destination: 65535, length: 8, checksum: 0xffff };
    let mut ub = Vec::new();
    put_udp(&mut ub, &u);
    assert_eq!(decode_udp(&ub), Some(u));
    let h6 = Ipv6Header {
        payload_length: 20,
        next_header: 6,
        hop_limit: 64,
        source: Ipv6Addr(0xfe80_0000_0000_0000_0000_0000_0000_0001),
        destination: Ipv6Addr(0x2001_0db8_0000_0000_0000_0000_0000_00ff),
    };
    let mut b6 = Vec::new();
    put_ipv6(&mut b6, &h6);
    assert_eq!(b6.len(), 40);
    assert_eq!(decode_ipv6(&b6), Some(h6));
    assert_eq!(decode_ipv4(&b[..19]), None);
    assert_eq!(decode_tcp(&tb[..19]), None);
}

/// The ones'-complement sum of 16-bit words, folded.
fn ones_sum(data: &[u8]) -> u16 {
    let mut sum: u32 = 0;
    for pair in data.chunks(2) {
        let hi = pair[0] as u32;
        let lo = if pair.len() > 1 { pair[1] as u32 } else { 0 };
        sum += (hi << 8) | lo;
    }
    while sum > 0xffff {
        sum = (sum >> 16) + (sum & 0xffff);
    }
    sum as u16
}

#[test]
fn built_probes_carry_valid_checksums() {
    let src = v4(192, 168, 72, 128);
    let dst = v4(192, 168, 72, 135);
    let p = build_tcp_probe(src, 57831, dst, 80, 0x02, 1, 77);
    assert_eq!(ones_sum(&p[..20]), 0xffff);
    let mut pseudo = p[12..20].to_vec();
    pseudo.extend_from_slice(&[0, 6, 0, 20]);
    pseudo.extend_from_slice(&p[20..]);
    assert_eq!(ones_sum(&pseudo), 0xffff);
    assert_ne!(&p[36..38], &[0, 0]);
    let u = build_udp_probe(src, 57831, dst, 80, 78);
    assert_eq!(ones_sum(&u[..20]), 0xffff);
    let mut pseudo = u[12..20].to_vec();
    pseudo.extend_from_slice(&[0, 17, 0, 8]);
    pseudo.extend_from_slice(&u[20..]);
    assert_eq!(ones_sum(&pseudo), 0xffff);
    let s6 = Ipv6Addr(0x2001_0db8_0000_0000_0000_0000_0000_0001);
    let d6 = Ipv6Addr(0x2001_0db8_0000_0000_0000_0000_0000_0002);
    let t6 = build_tcp_probe6(s6, 40000, d6, 443, 0x02, 9);
    let mut pseudo = t6[8..40].to_vec();
    pseudo.extend_from_slice(&[0, 0, 0, 20, 0, 0, 0, 6]);
    pseudo.extend_from_slice(&t6[40..]);
    assert_eq!(ones_sum(&pseudo), 0xffff);
}

#[test]
fn same_verdicts_whatever_the_round_trip_times() {
    let a = IpAddr::V4(v4(10, 0, 0, 5));
    let run = |rtts: [u64; 3]| {
        let reports = vec![
            Ok(PortOutcome { addr: a, port: 22, status: Open, rtt: Some(rtts[0]) }),
            Ok(PortOutcome { addr: a, port: 23, status: Closed, rtt: Some(rtts[1]) }),
            Ok(PortOutcome { addr: a, port: 24, status: Filtered, rtt: Some(rtts[2]) }),
        ];
        aggregate_ports(&reports).unwrap()
    };
    let first = run([100, 200, 300]);
    let second = run([900, 10, 5]);
    let reversed = aggregate_ports(&vec![
        Ok(PortOutcome { addr: a, port: 24, status: Filtered, rtt: Some(1) }),
        Ok(PortOutcome { addr: a, port: 23, status: Closed, rtt: Some(2) }),
        Ok(PortOutcome { addr: a, port: 22, status: Open, rtt: Some(3) }),
    ])
    .unwrap();
    let p3 = reversed.get(a).unwrap();
    for port in [22, 23, 24] {
        assert_eq!(first.get(a).unwrap().get(port), p3.get(port));
    }
    let (p1, p2) = (first.get(a).unwrap(), second.get(a).unwrap());
    for port in [22, 23, 24] {
        assert_eq!(p1.get(port), p2.get(port));
    }
    assert_ne!(p1.rtt, p2.rtt);
}

#[test]
fn zero_timeout_gives_no_reply_at_once() {
    let seen = Some(Observation::Udp);
    assert_eq!(capture_next(0, 0, seen), Some(None));
    for m in METHODS {
        let o = capture_next(0, 0, Some(Observation::ConnectEstablished)).unwrap().unwrap_or(Observation::NoReply);
        assert_eq!(o, Observation::NoReply);
        let expected = match m {
            ScanMethod::Fin | ScanMethod::Null | ScanMethod::Xmas | ScanMethod::Maimon | ScanMethod::Udp | ScanMethod::IpProcotol => OpenOrFiltered,
            _ => Filtered,
        };
        assert_eq!(classify(m, o), expected);
    }
    assert_eq!(capture_next(100, 50, None::<Observation>), None);
    assert_eq!(capture_next(100, 50, Some(7u8)), Some(Some(7u8)));
    assert_eq!(probe_timeout(Some(0)), 0);
    assert_eq!(probe_timeout(None), 3_000_000);
}

#[test]
fn pool_width_choices() {
    assert_eq!(pool_size(0, 0), 1);
    assert_eq!(pool_size(0, 10), 10);
    assert_eq!(pool_size(0, 1000), 256);
    assert_eq!(pool_size(1, 1000), 1);
    assert_eq!(pool_size(8, 3), 8);
}

fn eth0() -> Interface {
    Interface {
        name: "eth0".to_string(),
        mac: Some(MacAddr(0x02, 0, 0, 0, 0, 9)),
        ips: vec![Ipv4Net { addr: v4(192, 168, 1, 10), prefix: 24 }],
        ips6: vec![Ipv6Addr(0xfe80_0000_0000_0000_0000_0000_0000_0009), Ipv6Addr(0x2001_0db8_0000_0000_0000_0000_0000_0009)],
        is_up: true,
        is_loopback: false,
    }
}

fn lo() -> Interface {
    Interface {
        name: "lo".to_string(),
        mac: None,
        ips: vec![Ipv4Net { addr: v4(127, 0, 0, 1), prefix: 8 }],
        ips6: vec![Ipv6Addr(1)],
        is_up: true,
        is_loopback: true,
    }
}

#[test]
fn empty_target_plans_nothing() {
    let plan = plan_scan(&Vec::new(), &Vec::new(), None, None).unwrap();
    assert!(plan.is_empty());
    let res = aggregate_ports(&Vec::new()).unwrap();
    assert!(res.get(IpAddr::V4(v4(10, 0, 0, 5))).is_none());
}

#[test]
fn plan_crosses_hosts_and_ports() {
    let ifs = vec![lo(), eth0()];
    let hosts = vec![
        Host::new(v4(192, 168, 1, 5), Some(vec![22, 80])),
        Host::new(v4(192, 168, 1, 6), Some(vec![443])),
        Host::new(v4(192, 168, 1, 7), None),
    ];
    let plan = plan_scan(&ifs, &hosts, None, Some(40000)).unwrap();
    let got: Vec<(u32, u16, u16, u32)> = plan.iter().map(|w| (w.dst.0, w.dst_port, w.src_port, w.src.0)).collect();
    let src = v4(192, 168, 1, 10).0;
    assert_eq!(got, vec![(v4(192, 168, 1, 5).0, 22, 40000, src), (v4(192, 168, 1, 5).0, 80, 40000, src), (v4(192, 168, 1, 6).0, 443, 40000, src)]);
    let random = plan_scan(&ifs, &hosts, None, None).unwrap();
    assert_eq!(random.len(), 3);
    assert!(random.iter().all(|w| w.src_port >= 49152));
}

#[test]
fn duplicate_ports_are_probed_once() {
    let ifs = vec![eth0()];
    let hosts = vec![
        Host::new(v4(192, 168, 1, 5), Some(vec![22, 22, 80])),
        Host::new(v4(192, 168, 1, 5), Some(vec![80, 443])),
    ];
    let plan = plan_scan(&ifs, &hosts, None, Some(40000)).unwrap();
    let ports: Vec<u16> = plan.iter().map(|w| w.dst_port).collect();
    assert_eq!(ports, vec![22, 80, 443]);
}

#[test]
fn draws_select_ephemeral_ports() {
    assert_eq!(port_from_draw(0), 49152);
    assert_eq!(port_from_draw(16383), 65535);
    assert_eq!(port_from_draw(16384), 49152);
    assert_eq!(port_from_draw(65535), 65535);
    assert_eq!(port_from_draw(20000), 49152 + 3616);
}

#[test]
fn random_ports_are_ephemeral() {
    for _ in 0..200 {
        assert!(random_port() >= 49152);
    }
}

#[test]
fn source_address_selection() {
    let ifs = vec![lo(), eth0()];
    assert_eq!(find_source_ipv4(&ifs, None, v4(192, 168, 1, 77)), Some(v4(192, 168, 1, 10)));
    assert_eq!(find_source_ipv4(&ifs, None, v4(8, 8, 8, 8)), Some(v4(192, 168, 1, 10)));
    assert_eq!(find_source_ipv4(&ifs, None, v4(127, 0, 0, 1)), Some(v4(127, 0, 0, 1)));
    assert_eq!(find_source_ipv4(&ifs, Some(v4(1, 2, 3, 4)), v4(8, 8, 8, 8)), Some(v4(1, 2, 3, 4)));
    assert_eq!(find_source_ipv4(&vec![lo()], None, v4(8, 8, 8, 8)), None);
    assert!(net_contains(Ipv4Net { addr: v4(0, 0, 0, 0), prefix: 0 }, v4(200, 1, 2, 3)));
    assert!(net_contains(Ipv4Net { addr: v4(10, 0, 0, 1), prefix: 32 }, v4(10, 0, 0, 1)));
    assert!(!net_contains(Ipv4Net { addr: v4(10, 0, 0, 1), prefix: 32 }, v4(10, 0, 0, 2)));
    assert!(!net_contains(Ipv4Net { addr: v4(10, 0, 0, 1), prefix: 33 }, v4(10, 0, 0, 1)));
    let global = Ipv6Addr(0x2001_0db8_0000_0000_0000_0000_0000_00aa);
    let link = Ipv6Addr(0xfe80_0000_0000_0000_0000_0000_0000_00aa);
    assert_eq!(find_source_ipv6(&ifs, None, global), Some(Ipv6Addr(0x2001_0db8_0000_0000_0000_0000_0000_0009)));
    assert_eq!(find_source_ipv6(&ifs, None, link), Some(Ipv6Addr(0xfe80_0000_0000_0000_0000_0000_0000_0009)));
    assert_eq!(find_source_ipv6(&ifs, None, Ipv6Addr(1)), Some(Ipv6Addr(1)));
}

#[test]
fn route_errors() {
    let ifs = vec![lo(), eth0()];
    assert_eq!(resolve_route(&ifs, None, v4(192, 168, 1, 5)), Ok((1, v4(192, 168, 1, 10), MacAddr(0x02, 0, 0, 0, 0, 9))));
    assert_eq!(resolve_route(&ifs, Some(v4(172, 16, 0, 1)), v4(192, 168, 1, 5)).err(), Some(ScanError::CannotFindInterface));
    assert_eq!(resolve_route(&ifs, None, v4(127, 0, 0, 1)).err(), Some(ScanError::CannotFindMacAddress));
    assert_eq!(resolve_route(&vec![], None, v4(8, 8, 8, 8)).err(), Some(ScanError::CannotFindSourceAddress));
    let hosts = vec![Host::new(v4(8, 8, 8, 8), Some(vec![53]))];
    assert_eq!(plan_scan(&vec![], &hosts, None, None).err(), Some(ScanError::CannotFindSourceAddress));
}

#[test]
fn arp_planning() {
    let ifs = vec![lo(), eth0()];
    let six = Target::new6(vec![Host6::new(Ipv6Addr(5), None)]);
    assert_eq!(plan_arp_scan(&ifs, &six, None).err(), Some(ScanError::NotSupportedIpTypeForArpScan));
    let t = Target::new(vec![Host::new(v4(192, 168, 1, 2), None), Host::new(v4(192, 168, 1, 3), None)]);
    let works = plan_arp_scan(&ifs, &t, None).unwrap();
    assert_eq!(works.len(), 2);
    assert_eq!(works[1].dst, v4(192, 168, 1, 3));
    assert_eq!(works[0].interface, 1);
    assert_eq!(works[0].src_mac, MacAddr(0x02, 0, 0, 0, 0, 9));
    let bad = Target::new(vec![Host::new(v4(127, 0, 0, 5), None)]);
    assert_eq!(plan_arp_scan(&ifs, &bad, None).err(), Some(ScanError::CannotFindMacAddress));
}

#[test]
fn idle_scan_edges() {
    let wrap = IdleScanResults { zombie_ip_id_1: 65535, zombie_ip_id_2: 1 };
    assert_eq!(wrap.delta(), 2);
    assert_eq!(wrap.verdict(), Ok(Open));
    assert_eq!((IdleScanResults { zombie_ip_id_1: 7, zombie_ip_id_2: 8 }).verdict(), Ok(ClosedOrFiltered));
    assert_eq!((IdleScanResults { zombie_ip_id_1: 100, zombie_ip_id_2: 105 }).verdict(), Err(ScanError::NoisyZombie));
    assert_eq!((IdleScanResults { zombie_ip_id_1: 100, zombie_ip_id_2: 100 }).verdict(), Err(ScanError::NoisyZombie));
    assert_eq!(IdleState::Probe1.step(IdleEvent::ZombieTimeout).1, IdleAction::Fail { error: ScanError::ZombieUnreachable });
    assert_eq!(
        IdleState::Probe2 { ip_id_1: 3 }.step(IdleEvent::ZombieTimeout).1,
        IdleAction::Fail { error: ScanError::ZombieUnreachable }
    );
    assert_eq!(IdleState::Done.step(IdleEvent::Sent).1, IdleAction::Fail { error: ScanError::InvalidConfiguration });
    assert_eq!(
        IdleState::Probe2 { ip_id_1: 10 }.step(IdleEvent::ZombieReply { ip_id: 20 }).1,
        IdleAction::Fail { error: ScanError::NoisyZombie }
    );
}

#[test]
fn reply_matching_rejects_strangers() {
    let us = v4(10, 0, 0, 1);
    let them = v4(10, 0, 0, 5);
    let key: ProbeKey = probe_key(ScanMethod::Syn, us, 50000, them, 22, 0);
    let reply = build_tcp_probe(them, 22, us, 50000, TCP_RST, 0, 1);
    assert_eq!(observe_frame(&reply, key), Some(Observation::Tcp { syn: false, ack: false, rst: true, window: 1024 }));
    let wrong_port = build_tcp_probe(them, 23, us, 50000, TCP_RST, 0, 1);
    assert_eq!(observe_frame(&wrong_port, key), None);
    let wrong_host = build_tcp_probe(v4(10, 0, 0, 6), 22, us, 50000, TCP_RST, 0, 1);
    assert_eq!(observe_frame(&wrong_host, key), None);
    let udp_key = probe_key(ScanMethod::Udp, us, 50000, them, 53, 0);
    let udp_reply = build_udp_probe(them, 53, us, 50000, 3);
    assert_eq!(observe_frame(&udp_reply, udp_key), Some(Observation::Udp));
    let ip_key = probe_key(ScanMethod::IpProcotol, us, 0, them, 0, 17);
    assert_eq!(observe_frame(&udp_reply, ip_key), Some(Observation::ProtocolReply));
    let s6 = Ipv6Addr(0x2001_0db8_0000_0000_0000_0000_0000_0001);
    let d6 = Ipv6Addr(0x2001_0db8_0000_0000_0000_0000_0000_0002);
    let key6 = probe_key6(ScanMethod6::Syn, s6, 40000, d6, 443);
    let reply6 = build_tcp_probe6(d6, 443, s6, 40000, 0x12, 5);
    assert_eq!(observe_frame6(&reply6, key6), Some(Observation::Tcp { syn: true, ack: true, rst: false, window: 1024 }));
    let mut frame = vec![0u8; 12];
    frame.extend_from_slice(&[0x08, 0x00]);
    frame.extend_from_slice(&reply);
    assert_eq!(ethernet_payload(&frame, 0x0800), Some(&reply[..]));
    assert_eq!(ethernet_payload(&frame, 0x86dd), None);
}

#[test]
fn status_labels() {
    assert_eq!(status_label(Open), "open");
    assert_eq!(status_label(OpenOrFiltered), "open|filtered");
    assert_eq!(status_label(ClosedOrFiltered), "closed|filtered");
    assert_eq!(status_label(Unreachable), "unreachable");
}

#[test]
fn scan_options_are_checked() {
    assert_eq!(check_options(ScanMethod::Idle, None, None), Err(ScanError::InvalidConfiguration));
    assert_eq!(check_options(ScanMethod::Idle, Some((v4(10, 0, 0, 9), 80)), None), Ok(()));
    assert_eq!(check_options(ScanMethod::IpProcotol, None, None), Err(ScanError::InvalidConfiguration));
    assert_eq!(check_options(ScanMethod::IpProcotol, None, Some(17)), Ok(()));
    assert_eq!(check_options(ScanMethod::Syn, None, None), Ok(()));
}

#[test]
fn arrivals_are_credited_to_their_planned_probes() {
    let ifs = vec![eth0()];
    let hosts = vec![Host::new(v4(192, 168, 1, 5), Some(vec![22, 80])), Host::new(v4(192, 168, 1, 6), Some(vec![443]))];
    let plan = plan_scan(&ifs, &hosts, None, None).unwrap();
    let arrivals = vec![(2usize, Ok((Closed, Some(30u64)))), (0, Ok((Open, Some(10)))), (1, Ok((Filtered, None)))];
    let res = collect_port_results(&plan, &arrivals).unwrap();
    let a = res.get(IpAddr::V4(v4(192, 168, 1, 5))).unwrap();
    assert_eq!(a.get(22), Some(Open));
    assert_eq!(a.get(80), Some(Filtered));
    assert_eq!(a.rtt, Some(10));
    assert_eq!(res.get(IpAddr::V4(v4(192, 168, 1, 6))).unwrap().get(443), Some(Closed));
    let reordered = vec![(1usize, Ok((Filtered, None))), (0, Ok((Open, Some(99)))), (2, Ok((Closed, Some(1))))];
    let again = collect_port_results(&plan, &reordered).unwrap();
    assert_eq!(again.get(IpAddr::V4(v4(192, 168, 1, 5))).unwrap().get(22), Some(Open));
    let failing = vec![(0usize, Ok((Open, None))), (1, Err(ScanError::SendFailed))];
    assert_eq!(collect_port_results(&plan, &failing).err(), Some(ScanError::SendFailed));
}
