//! Verdicts, scan methods, and the mapping from what a probe observed to
//! the verdict that each method gives.
use vstd::prelude::*;

verus! {

/// The verdict for one probed (host, port) or (host, protocol) pair.
#[derive(Debug, Clone, Copy, PartialEq, Eq, Structural)]
pub enum TargetScanStatus {
    Open,
    Closed,
    Filtered,
    OpenOrFiltered,
    Unfiltered,
    Unreachable,
    ClosedOrFiltered,
}

/// Scan methods over IPv4.
#[derive(Debug, Clone, Copy, PartialEq, Eq, Structural)]
pub enum ScanMethod {
    Connect,
    Syn,
    Fin,
    Ack,
    Null,
    Xmas,
    Window,
    Maimon,
    Idle,
    Udp,
    IpProcotol,
}

/// Scan methods over IPv6.
#[derive(Debug, Clone, Copy, PartialEq, Eq, Structural)]
pub enum ScanMethod6 {
    Connect,
    Syn,
    Fin,
    Ack,
    Null,
    Xmas,
    Window,
    Maimon,
    Udp,
}

/// What the capture channel (or the operating system, for a connect scan)
/// reported in answer to one probe.
#[derive(Debug, Clone, Copy, PartialEq, Eq, Structural)]
pub enum Observation {
    /// Nothing matched before the timeout.
    NoReply,
    /// A TCP segment from the probed port back to the probing port.
    Tcp { syn: bool, ack: bool, rst: bool, window: u16 },
    /// A UDP datagram from the probed port back to the probing port.
    Udp,
    /// An ICMP destination-unreachable (type 3) that quotes the probe.
    IcmpUnreachable { code: u8 },
    /// Any datagram of the probed IP protocol from the probed host.
    ProtocolReply,
    /// The operating system completed a TCP connection.
    ConnectEstablished,
    /// The operating system reported the connection refused.
    ConnectRefused,
}

/// ICMP destination-unreachable code: protocol unreachable.
pub const ICMP_PROTOCOL_UNREACHABLE: u8 = 2;
/// ICMP destination-unreachable code: port unreachable.
pub const ICMP_PORT_UNREACHABLE: u8 = 3;

/// The IPv4 method that an IPv6 method runs the same tables as.
pub open spec fn method_of6(m: ScanMethod6) -> ScanMethod {
    match m {
        ScanMethod6::Connect => ScanMethod::Connect,
        ScanMethod6::Syn => ScanMethod::Syn,
        ScanMethod6::Fin => ScanMethod::Fin,
        ScanMethod6::Ack => ScanMethod::Ack,
        ScanMethod6::Null => ScanMethod::Null,
        ScanMethod6::Xmas => ScanMethod::Xmas,
        ScanMethod6::Window => ScanMethod::Window,
        ScanMethod6::Maimon => ScanMethod::Maimon,
        ScanMethod6::Udp => ScanMethod::Udp,
    }
}

/// The verdict a method gives when nothing answered the probe.
pub open spec fn no_reply_verdict(m: ScanMethod) -> TargetScanStatus {
    match m {
        ScanMethod::Fin | ScanMethod::Null | ScanMethod::Xmas | ScanMethod::Maimon
        | ScanMethod::Udp | ScanMethod::IpProcotol => TargetScanStatus::OpenOrFiltered,
        ScanMethod::Idle => TargetScanStatus::ClosedOrFiltered,
        _ => TargetScanStatus::Filtered,
    }
}

/// The observation-to-verdict table of each method. An observation that a
/// method's table does not list counts as no reply for that method.
pub open spec fn verdict_of(m: ScanMethod, o: Observation) -> TargetScanStatus {
    match (m, o) {
        (ScanMethod::Connect, Observation::ConnectEstablished) => TargetScanStatus::Open,
        (ScanMethod::Connect, Observation::ConnectRefused) => TargetScanStatus::Closed,
        (ScanMethod::Syn, Observation::Tcp { syn, ack, rst, window }) =>
            if rst {
                TargetScanStatus::Closed
            } else if syn && ack {
                TargetScanStatus::Open
            } else {
                no_reply_verdict(m)
            },
        (ScanMethod::Fin, Observation::Tcp { rst, .. })
        | (ScanMethod::Null, Observation::Tcp { rst, .. })
        | (ScanMethod::Xmas, Observation::Tcp { rst, .. })
        | (ScanMethod::Maimon, Observation::Tcp { rst, .. }) =>
            if rst {
                TargetScanStatus::Closed
            } else {
                no_reply_verdict(m)
            },
        (ScanMethod::Fin, Observation::IcmpUnreachable { .. })
        | (ScanMethod::Null, Observation::IcmpUnreachable { .. })
        | (ScanMethod::Xmas, Observation::IcmpUnreachable { .. }) => TargetScanStatus::Filtered,
        (ScanMethod::Ack, Observation::Tcp { rst, .. }) =>
            if rst {
                TargetScanStatus::Unfiltered
            } else {
                no_reply_verdict(m)
            },
        (ScanMethod::Window, Observation::Tcp { rst, window, .. }) =>
            if rst && window > 0 {
                TargetScanStatus::Open
            } else if rst {
                TargetScanStatus::Closed
            } else {
                no_reply_verdict(m)
            },
        (ScanMethod::Udp, Observation::Udp) => TargetScanStatus::Open,
        (ScanMethod::Udp, Observation::IcmpUnreachable { code }) =>
            if code == ICMP_PORT_UNREACHABLE {
                TargetScanStatus::Closed
            } else {
                TargetScanStatus::Filtered
            },
        (ScanMethod::IpProcotol, Observation::ProtocolReply) => TargetScanStatus::Open,
        (ScanMethod::IpProcotol, Observation::IcmpUnreachable { code }) =>
            if code == ICMP_PROTOCOL_UNREACHABLE {
                TargetScanStatus::Closed
            } else {
                TargetScanStatus::Filtered
            },
        _ => no_reply_verdict(m),
    }
}

/// The verdicts that a method may give at all.
pub open spec fn allowed_verdict(m: ScanMethod, s: TargetScanStatus) -> bool {
    match m {
        ScanMethod::Connect | ScanMethod::Syn => s == TargetScanStatus::Open || s
            == TargetScanStatus::Closed || s == TargetScanStatus::Filtered,
        ScanMethod::Fin | ScanMethod::Null | ScanMethod::Xmas => s == TargetScanStatus::Closed
            || s == TargetScanStatus::OpenOrFiltered || s == TargetScanStatus::Filtered,
        ScanMethod::Ack => s == TargetScanStatus::Unfiltered || s == TargetScanStatus::Filtered,
        ScanMethod::Window => s == TargetScanStatus::Open || s == TargetScanStatus::Closed || s
            == TargetScanStatus::Filtered,
        ScanMethod::Maimon => s == TargetScanStatus::Closed || s
            == TargetScanStatus::OpenOrFiltered,
        ScanMethod::Idle => s == TargetScanStatus::Open || s
            == TargetScanStatus::ClosedOrFiltered,
        ScanMethod::Udp | ScanMethod::IpProcotol => s == TargetScanStatus::Open || s
            == TargetScanStatus::Closed || s == TargetScanStatus::Filtered || s
            == TargetScanStatus::OpenOrFiltered,
    }
}

impl ScanMethod6 {
    /// The IPv4 method whose verdict table this method shares.
    pub fn as_method(self) -> (r: ScanMethod)
        ensures
            r == method_of6(self),
    {
        match self {
            ScanMethod6::Connect => ScanMethod::Connect,
            ScanMethod6::Syn => ScanMethod::Syn,
            ScanMethod6::Fin => ScanMethod::Fin,
            ScanMethod6::Ack => ScanMethod::Ack,
            ScanMethod6::Null => ScanMethod::Null,
            ScanMethod6::Xmas => ScanMethod::Xmas,
            ScanMethod6::Window => ScanMethod::Window,
            ScanMethod6::Maimon => ScanMethod::Maimon,
            ScanMethod6::Udp => ScanMethod::Udp,
        }
    }
}

/// The verdict a method gives when nothing answered.
pub fn no_reply_status(m: ScanMethod) -> (r: TargetScanStatus)
    ensures
        r == no_reply_verdict(m),
{
    match m {
        ScanMethod::Fin | ScanMethod::Null | ScanMethod::Xmas | ScanMethod::Maimon
        | ScanMethod::Udp | ScanMethod::IpProcotol => TargetScanStatus::OpenOrFiltered,
        ScanMethod::Idle => TargetScanStatus::ClosedOrFiltered,
        _ => TargetScanStatus::Filtered,
    }
}

/// Maps what a probe observed to the method's verdict.
pub fn classify(m: ScanMethod, o: Observation) -> (r: TargetScanStatus)
    ensures
        r == verdict_of(m, o),
{
    match (m, o) {
        (ScanMethod::Connect, Observation::ConnectEstablished) => TargetScanStatus::Open,
        (ScanMethod::Connect, Observation::ConnectRefused) => TargetScanStatus::Closed,
        (ScanMethod::Syn, Observation::Tcp { syn, ack, rst, .. }) => {
            if rst {
                TargetScanStatus::Closed
            } else if syn && ack {
                TargetScanStatus::Open
            } else {
                no_reply_status(m)
            }
        },
        (ScanMethod::Fin, Observation::Tcp { rst, .. })
        | (ScanMethod::Null, Observation::Tcp { rst, .. })
        | (ScanMethod::Xmas, Observation::Tcp { rst, .. })
        | (ScanMethod::Maimon, Observation::Tcp { rst, .. }) => {
            if rst {
                TargetScanStatus::Closed
            } else {
                no_reply_status(m)
            }
        },
        (ScanMethod::Fin, Observation::IcmpUnreachable { .. })
        | (ScanMethod::Null, Observation::IcmpUnreachable { .. })
        | (ScanMethod::Xmas, Observation::IcmpUnreachable { .. }) => TargetScanStatus::Filtered,
        (ScanMethod::Ack, Observation::Tcp { rst, .. }) => {
            if rst {
                TargetScanStatus::Unfiltered
            } else {
                no_reply_status(m)
            }
        },
        (ScanMethod::Window, Observation::Tcp { rst, window, .. }) => {
            if rst && window > 0 {
                TargetScanStatus::Open
            } else if rst {
                TargetScanStatus::Closed
            } else {
                no_reply_status(m)
            }
        },
        (ScanMethod::Udp, Observation::Udp) => TargetScanStatus::Open,
        (ScanMethod::Udp, Observation::IcmpUnreachable { code }) => {
            if code == ICMP_PORT_UNREACHABLE {
                TargetScanStatus::Closed
            } else {
                TargetScanStatus::Filtered
            }
        },
        (ScanMethod::IpProcotol, Observation::ProtocolReply) => TargetScanStatus::Open,
        (ScanMethod::IpProcotol, Observation::IcmpUnreachable { code }) => {
            if code == ICMP_PROTOCOL_UNREACHABLE {
                TargetScanStatus::Closed
            } else {
                TargetScanStatus::Filtered
            }
        },
        _ => no_reply_status(m),
    }
}

/// The label of a verdict in reports.
pub fn status_label(s: TargetScanStatus) -> (r: &'static str)
    ensures
        r@ == match s {
            TargetScanStatus::Open => "open"@,
            TargetScanStatus::Closed => "closed"@,
            TargetScanStatus::Filtered => "filtered"@,
            TargetScanStatus::OpenOrFiltered => "open|filtered"@,
            TargetScanStatus::Unfiltered => "unfiltered"@,
            TargetScanStatus::Unreachable => "unreachable"@,
            TargetScanStatus::ClosedOrFiltered => "closed|filtered"@,
        },
{
    match s {
        TargetScanStatus::Open => "open",
        TargetScanStatus::Closed => "closed",
        TargetScanStatus::Filtered => "filtered",
        TargetScanStatus::OpenOrFiltered => "open|filtered",
        TargetScanStatus::Unfiltered => "unfiltered",
        TargetScanStatus::Unreachable => "unreachable",
        TargetScanStatus::ClosedOrFiltered => "closed|filtered",
    }
}

/// Every verdict that a method's table gives lies in that method's
/// allowed set.
pub proof fn lemma_verdict_allowed(m: ScanMethod, o: Observation)
    ensures
        allowed_verdict(m, verdict_of(m, o)),
{
}

} // verus!
