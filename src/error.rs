//! The ways a scan can fail.
use vstd::prelude::*;

verus! {

/// Why a scan, or one probe of it, could not be completed.
#[derive(Debug, Clone, Copy, PartialEq, Eq, Structural)]
pub enum ScanError {
    /// No usable interface carries the resolved source address.
    CannotFindInterface,
    /// Routing produced no source address for the destination.
    CannotFindSourceAddress,
    /// The chosen interface has no hardware address.
    CannotFindMacAddress,
    /// ARP was asked for on an IPv6 target.
    NotSupportedIpTypeForArpScan,
    /// The kernel rejected an outbound frame.
    SendFailed,
    /// The capture channel could not be opened.
    CaptureFailed,
    /// An idle scan got no answer from the zombie.
    ZombieUnreachable,
    /// The zombie's IP identification moved by neither one nor two.
    NoisyZombie,
    /// Raw sockets are not available to this process.
    PermissionDenied,
    /// The options given do not make a scan (an idle scan without zombie).
    InvalidConfiguration,
}

} // verus!
