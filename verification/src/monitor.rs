//! The health monitor: what to probe, how a probe is judged, and the cycle
//! of phases that the polling loop goes through.

use vstd::prelude::*;
use crate::backend::ProbeOutcome;
use crate::registry::{AppState, ProbeResult};
use crate::text::{ends_in_slash, has_trailing_slash, join};

verus! {

/// Seconds a single probe may take before it counts as failed.
pub const PROBE_TIMEOUT_SECS: u64 = 2;

/// Seconds between the end of one health cycle and the start of the next.
pub const PROBE_INTERVAL_SECS: u64 = 5;

/// The address probed for a backend: its base URL followed by `/healthz`,
/// with a single slash between the two.
pub open spec fn health_address(url: Seq<char>) -> Seq<char> {
    if ends_in_slash(url) {
        url + "healthz"@
    } else {
        url + "/healthz"@
    }
}

/// The address to probe for the backend at `url`.
pub fn health_url(url: &str) -> (address: String)
    ensures
        address@ == health_address(url@),
{
    if has_trailing_slash(url) {
        join(url, "healthz")
    } else {
        join(url, "/healthz")
    }
}

/// One probe to make: the backend's position and the address to ask.
pub struct ProbeTarget {
    pub index: usize,
    pub address: String,
}

/// The probes of one health cycle: one for each backend, in registry order.
pub fn probe_targets(state: &AppState) -> (targets: Vec<ProbeTarget>)
    ensures
        targets@.len() == state@.servers.len(),
        forall|i: int|
            0 <= i < targets@.len() ==> (#[trigger] targets@[i]).index == i && targets@[i].address@
                == health_address(state@.servers[i].url),
{
    let listed = state.servers_to_check();
    let mut targets: Vec<ProbeTarget> = Vec::new();
    let mut i: usize = 0;
    while i < listed.len()
        invariant
            i <= listed.len(),
            listed@.len() == state@.servers.len(),
            forall|j: int|
                0 <= j < listed@.len() ==> (#[trigger] listed@[j]).0 == j && listed@[j].1@
                    == state@.servers[j].url,
            targets@.len() == i,
            forall|j: int|
                0 <= j < i ==> (#[trigger] targets@[j]).index == j && targets@[j].address@
                    == health_address(state@.servers[j].url),
        decreases listed.len() - i,
    {
        let address = health_url(listed[i].1.as_str());
        targets.push(ProbeTarget { index: listed[i].0, address });
        i = i + 1;
    }
    targets
}

/// The phases of the polling loop.
#[derive(Clone, Copy, Debug, PartialEq, Eq, Structural)]
pub enum MonitorPhase {
    /// Waiting for the next cycle.
    Idle,
    /// Probes are under way; the registry is not locked.
    Probing,
    /// Every probe has ended; the results go into the registry as one batch.
    Applying,
}

/// What the polling loop does to leave a phase.
#[derive(Clone, Copy, Debug, PartialEq, Eq, Structural)]
pub enum MonitorAction {
    /// List the probes under a read lock, release it, and make each probe
    /// with this timeout in seconds.
    Probe { timeout_secs: u64 },
    /// Under the write lock, apply the results and publish the snapshot.
    ApplyAndPublish,
    /// Sleep this many seconds.
    Sleep { secs: u64 },
}

/// The phase that follows, and what has to be done to get there.
pub open spec fn next_step(phase: MonitorPhase) -> (MonitorPhase, MonitorAction) {
    match phase {
        MonitorPhase::Idle => (
            MonitorPhase::Probing,
            MonitorAction::Probe { timeout_secs: PROBE_TIMEOUT_SECS },
        ),
        MonitorPhase::Probing => (MonitorPhase::Applying, MonitorAction::ApplyAndPublish),
        MonitorPhase::Applying => (
            MonitorPhase::Idle,
            MonitorAction::Sleep { secs: PROBE_INTERVAL_SECS },
        ),
    }
}

/// One step of the polling loop. No probe result stops the loop: the phases
/// follow each other whatever the probes found.
pub fn advance(phase: MonitorPhase) -> (step: (MonitorPhase, MonitorAction))
    ensures
        step == next_step(phase),
{
    match phase {
        MonitorPhase::Idle => (
            MonitorPhase::Probing,
            MonitorAction::Probe { timeout_secs: PROBE_TIMEOUT_SECS },
        ),
        MonitorPhase::Probing => (MonitorPhase::Applying, MonitorAction::ApplyAndPublish),
        MonitorPhase::Applying => (
            MonitorPhase::Idle,
            MonitorAction::Sleep { secs: PROBE_INTERVAL_SECS },
        ),
    }
}

/// The polling loop never ends: three steps lead from any phase back to it.
pub proof fn lemma_phases_cycle(phase: MonitorPhase)
    ensures
        next_step(next_step(next_step(phase).0).0).0 == phase,
        next_step(phase).0 != phase,
{
}

/// The wall-clock time of this moment in the local time zone, written after
/// `pattern`.
///
/// Calls `chrono::Local::now` and formats what it gives. The pattern asked
/// for is hours, minutes and seconds with colons between them. What comes
/// back depends on the clock and the time zone, so nothing is claimed of it.
#[verifier::external_body]
fn local_time(pattern: &str) -> String
    requires
        pattern@ == "%H:%M:%S"@,
{
    chrono::Local::now().format(pattern).to_string()
}

impl ProbeResult {
    /// The result of a probe that ended at `checked_at`.
    pub fn new(index: usize, outcome: ProbeOutcome, elapsed_ms: u128, checked_at: String) -> (result:
        ProbeResult)
        ensures
            result.index == index,
            result.outcome == outcome,
            result.elapsed_ms == elapsed_ms,
            result.checked_at == checked_at,
    {
        ProbeResult { index, outcome, elapsed_ms, checked_at }
    }

    /// The result of a probe that has just ended, stamped with the local
    /// time of day.
    pub fn observed(index: usize, outcome: ProbeOutcome, elapsed_ms: u128) -> (result: ProbeResult)
        ensures
            result.index == index,
            result.outcome == outcome,
            result.elapsed_ms == elapsed_ms,
    {
        ProbeResult::new(index, outcome, elapsed_ms, local_time("%H:%M:%S"))
    }
}

} // verus!
