//! Per-probe decisions: the capture wait and the idle-scan state machine.
use vstd::prelude::*;
use crate::error::ScanError;
use crate::status::{ScanMethod, Observation, TargetScanStatus, verdict_of, no_reply_verdict, allowed_verdict};

verus! {

/// The two IP identification values read from the zombie of an idle scan.
#[derive(Debug, Clone, Copy, PartialEq, Eq, Structural)]
pub struct IdleScanResults {
    pub zombie_ip_id_1: u16,
    pub zombie_ip_id_2: u16,
}

/// One decision of a capture wait: `None` keeps waiting; `Some(None)` ends
/// the wait with no reply; `Some(Some(x))` ends it with the match `x`.
pub open spec fn capture_decision<T>(timeout_us: u64, elapsed_us: u64, frame: Option<T>) -> Option<Option<T>> {
    if elapsed_us >= timeout_us {
        Some(None)
    } else {
        match frame {
            Some(x) => Some(Some(x)),
            None => None,
        }
    }
}

/// Decides, after `elapsed_us` microseconds of a wait bounded by
/// `timeout_us`, whether the wait ends and with what; `frame` is the
/// match seen at this step, if any.
pub fn capture_next<T>(timeout_us: u64, elapsed_us: u64, frame: Option<T>) -> (r: Option<Option<T>>)
    ensures
        r == capture_decision(timeout_us, elapsed_us, frame),
{
    if elapsed_us >= timeout_us {
        Some(None)
    } else {
        match frame {
            Some(x) => Some(Some(x)),
            None => None,
        }
    }
}

/// The observation that a finished wait stands for.
pub open spec fn waited_observation(w: Option<Observation>) -> Observation {
    match w {
        Some(o) => o,
        None => Observation::NoReply,
    }
}

/// A zero timeout is legal: the wait ends at once with no reply, and every
/// method then gives its no-reply verdict.
pub proof fn lemma_zero_timeout(m: ScanMethod, elapsed_us: u64, frame: Option<Observation>)
    ensures
        capture_decision(0, elapsed_us, frame) == Some(None::<Observation>),
        verdict_of(m, waited_observation(None)) == no_reply_verdict(m),
{
}

/// How far the zombie's IP identification moved, modulo 2^16.
pub open spec fn ip_id_delta(first: u16, second: u16) -> int {
    (second as int - first as int) % 65536
}

/// The idle-scan verdict for a pair of zombie IP identifications.
pub open spec fn idle_outcome(r: IdleScanResults) -> Result<TargetScanStatus, ScanError> {
    let d = ip_id_delta(r.zombie_ip_id_1, r.zombie_ip_id_2);
    if d == 2 {
        Ok(TargetScanStatus::Open)
    } else if d == 1 {
        Ok(TargetScanStatus::ClosedOrFiltered)
    } else {
        Err(ScanError::NoisyZombie)
    }
}

impl IdleScanResults {
    /// How far the zombie's IP identification moved between the two probes.
    pub fn delta(&self) -> (r: u16)
        ensures
            r as int == ip_id_delta(self.zombie_ip_id_1, self.zombie_ip_id_2),
    {
        let a = self.zombie_ip_id_1 as u32;
        let b = self.zombie_ip_id_2 as u32;
        ((b + 65536 - a) % 65536) as u16
    }

    /// Two steps mean the target answered the spoofed SYN with a SYN/ACK
    /// (open); one step means it did not (closed or filtered); anything
    /// else means the zombie is not quiet.
    pub fn verdict(&self) -> (r: Result<TargetScanStatus, ScanError>)
        ensures
            r == idle_outcome(*self),
    {
        let d = self.delta();
        if d == 2 {
            Ok(TargetScanStatus::Open)
        } else if d == 1 {
            Ok(TargetScanStatus::ClosedOrFiltered)
        } else {
            Err(ScanError::NoisyZombie)
        }
    }
}

/// Where an idle scan stands.
#[derive(Debug, Clone, Copy, PartialEq, Eq, Structural)]
pub enum IdleState {
    /// The first SYN/ACK to the zombie is out.
    Probe1,
    /// The spoofed SYN to the target is out.
    Spoof { ip_id_1: u16 },
    /// The second SYN/ACK to the zombie is out.
    Probe2 { ip_id_1: u16 },
    /// The scan is over.
    Done,
}

/// What came back for the last action of an idle scan.
#[derive(Debug, Clone, Copy, PartialEq, Eq, Structural)]
pub enum IdleEvent {
    /// The zombie answered with a RST carrying this IP identification.
    ZombieReply { ip_id: u16 },
    /// The zombie did not answer in time.
    ZombieTimeout,
    /// The spoofed SYN was handed to the kernel.
    Sent,
}

/// What an idle scan does next.
#[derive(Debug, Clone, Copy, PartialEq, Eq, Structural)]
pub enum IdleAction {
    /// Send a spoofed SYN to the target, with the zombie as source.
    SendSpoofed,
    /// Send a SYN/ACK to the zombie and wait for its RST.
    ProbeZombie,
    /// Stop with this verdict, read from these zombie IP identifications.
    Report { status: TargetScanStatus, ip_ids: IdleScanResults },
    /// Stop with this error.
    Fail { error: ScanError },
}

/// The idle-scan state machine: state and event to next state and action.
pub open spec fn idle_transition(s: IdleState, e: IdleEvent) -> (IdleState, IdleAction) {
    match (s, e) {
        (IdleState::Probe1, IdleEvent::ZombieReply { ip_id }) =>
            (IdleState::Spoof { ip_id_1: ip_id }, IdleAction::SendSpoofed),
        (IdleState::Spoof { ip_id_1 }, IdleEvent::Sent) =>
            (IdleState::Probe2 { ip_id_1 }, IdleAction::ProbeZombie),
        (IdleState::Probe2 { ip_id_1 }, IdleEvent::ZombieReply { ip_id }) => {
            let obs = IdleScanResults { zombie_ip_id_1: ip_id_1, zombie_ip_id_2: ip_id };
            (IdleState::Done, match idle_outcome(obs) {
                Ok(v) => IdleAction::Report { status: v, ip_ids: obs },
                Err(err) => IdleAction::Fail { error: err },
            })
        },
        (IdleState::Probe1, IdleEvent::ZombieTimeout)
        | (IdleState::Probe2 { .. }, IdleEvent::ZombieTimeout) =>
            (IdleState::Done, IdleAction::Fail { error: ScanError::ZombieUnreachable }),
        _ => (IdleState::Done, IdleAction::Fail { error: ScanError::InvalidConfiguration }),
    }
}

impl IdleState {
    /// Advances the idle scan by one event.
    pub fn step(self, e: IdleEvent) -> (r: (IdleState, IdleAction))
        ensures
            r == idle_transition(self, e),
    {
        match (self, e) {
            (IdleState::Probe1, IdleEvent::ZombieReply { ip_id }) => (
                IdleState::Spoof { ip_id_1: ip_id },
                IdleAction::SendSpoofed,
            ),
            (IdleState::Spoof { ip_id_1 }, IdleEvent::Sent) => (
                IdleState::Probe2 { ip_id_1 },
                IdleAction::ProbeZombie,
            ),
            (IdleState::Probe2 { ip_id_1 }, IdleEvent::ZombieReply { ip_id }) => {
                let obs = IdleScanResults { zombie_ip_id_1: ip_id_1, zombie_ip_id_2: ip_id };
                let action = match obs.verdict() {
                    Ok(v) => IdleAction::Report { status: v, ip_ids: obs },
                    Err(err) => IdleAction::Fail { error: err },
                };
                (IdleState::Done, action)
            },
            (IdleState::Probe1, IdleEvent::ZombieTimeout)
            | (IdleState::Probe2 { .. }, IdleEvent::ZombieTimeout) => (
                IdleState::Done,
                IdleAction::Fail { error: ScanError::ZombieUnreachable },
            ),
            _ => (IdleState::Done, IdleAction::Fail { error: ScanError::InvalidConfiguration }),
        }
    }
}

/// Every verdict an idle scan reaches lies in the idle method's allowed set.
pub proof fn lemma_idle_verdict_allowed(r: IdleScanResults)
    ensures
        idle_outcome(r) is Ok ==> allowed_verdict(ScanMethod::Idle, idle_outcome(r)->Ok_0),
{
}

} // verus!
