//! Backend records: what the balancer knows about one upstream server.

use vstd::prelude::*;
use vstd::string::StringExecFns;

verus! {

/// Number of probe results kept per backend; the oldest is evicted first.
pub const HISTORY_CAPACITY: usize = 20;

/// One backend as named at startup.
pub struct ServerConfig {
    pub url: String,
    pub region: Option<String>,
}

/// What came back from one health probe.
#[derive(Clone, Copy, Debug, PartialEq, Eq, Structural)]
pub enum ProbeOutcome {
    /// A response arrived, with this status code.
    Responded(u16),
    /// No response: refused connection, timeout, name lookup failure.
    Unreachable,
}

/// Mathematical view of a backend record.
pub struct BackendView {
    pub url: Seq<char>,
    pub region: Seq<char>,
    pub healthy: bool,
    pub response_time: Option<u128>,
    pub last_check: Option<Seq<char>>,
    pub uptime: nat,
    pub downtime: nat,
    pub history: Seq<Option<u128>>,
}

/// The record of one upstream server.
///
/// The history holds the latest probe results, oldest first, never more than
/// `HISTORY_CAPACITY`. An entry is `None` where nothing was measured,
/// `Some(0)` for a failed probe and the latency in milliseconds otherwise.
pub struct ServerStatus {
    url: String,
    region: String,
    healthy: bool,
    response_time: Option<u128>,
    last_check: Option<String>,
    uptime: u64,
    downtime: u64,
    history: Vec<Option<u128>>,
}

/// True when the status code lies in the success range, 200 to 299.
pub open spec fn is_success_status(code: u16) -> bool {
    200 <= code < 300
}

/// Whether a probe with this outcome counts as healthy.
pub open spec fn outcome_is_healthy(outcome: ProbeOutcome) -> bool {
    match outcome {
        ProbeOutcome::Responded(code) => is_success_status(code),
        ProbeOutcome::Unreachable => false,
    }
}

/// The history after one more entry: appended at the tail, and the head
/// dropped once the capacity is exceeded.
pub open spec fn push_bounded(history: Seq<Option<u128>>, entry: Option<u128>) -> Seq<Option<u128>> {
    let grown = history.push(entry);
    if grown.len() > HISTORY_CAPACITY {
        grown.subrange(1, grown.len() as int)
    } else {
        grown
    }
}

/// The history entry that a probe leaves: the latency of a healthy probe,
/// zero for a failed one.
pub open spec fn history_entry(healthy: bool, elapsed_ms: u128) -> Option<u128> {
    if healthy {
        Some(elapsed_ms)
    } else {
        Some(0u128)
    }
}

/// The newest entries of a run, as many as the capacity allows.
pub open spec fn latest(entries: Seq<Option<u128>>) -> Seq<Option<u128>> {
    if entries.len() <= HISTORY_CAPACITY {
        entries
    } else {
        entries.subrange(entries.len() - HISTORY_CAPACITY, entries.len() as int)
    }
}

/// A history within its capacity stays within it when an entry is added, and
/// holds the newest entries: the oldest is the one that leaves.
pub proof fn lemma_push_keeps_latest(history: Seq<Option<u128>>, entry: Option<u128>)
    requires
        history.len() <= HISTORY_CAPACITY,
    ensures
        push_bounded(history, entry).len() <= HISTORY_CAPACITY,
        push_bounded(history, entry) == latest(history.push(entry)),
        history.len() == HISTORY_CAPACITY ==> push_bounded(history, entry) == history.drop_first().push(
            entry,
        ),
{
    if history.len() == HISTORY_CAPACITY {
        assert(push_bounded(history, entry) =~= history.drop_first().push(entry));
        assert(push_bounded(history, entry) =~= latest(history.push(entry)));
    }
}

/// The record after one probe result has been applied to it.
pub open spec fn record_probe(
    b: BackendView,
    healthy: bool,
    elapsed_ms: u128,
    checked_at: Seq<char>,
) -> BackendView {
    BackendView {
        url: b.url,
        region: b.region,
        healthy,
        response_time: if healthy { Some(elapsed_ms) } else { None },
        last_check: Some(checked_at),
        uptime: if healthy { b.uptime + 1 } else { b.uptime },
        downtime: if healthy { b.downtime } else { b.downtime + 1 },
        history: push_bounded(b.history, history_entry(healthy, elapsed_ms)),
    }
}

/// The record a backend starts with: not yet probed, nothing counted.
pub open spec fn initial_backend(url: Seq<char>, region: Option<Seq<char>>) -> BackendView {
    BackendView {
        url,
        region: match region {
            Some(r) => r,
            None => seq!['-'],
        },
        healthy: false,
        response_time: None,
        last_check: None,
        uptime: 0,
        downtime: 0,
        history: Seq::empty(),
    }
}

impl ProbeOutcome {
    /// A probe is healthy when a response arrived and its status is 2xx.
    pub fn is_healthy(&self) -> (healthy: bool)
        ensures
            healthy == outcome_is_healthy(*self),
    {
        match self {
            ProbeOutcome::Responded(code) => 200 <= *code && *code < 300,
            ProbeOutcome::Unreachable => false,
        }
    }
}

/// The records that the balancer starts with: one for each configured
/// backend, in order; none where the configuration could not be read.
pub fn load_servers(configs: Option<Vec<ServerConfig>>) -> (servers: Vec<ServerStatus>)
    ensures
        match configs {
            Some(list) => servers@.len() == list@.len() && forall|i: int|
                0 <= i < list@.len() ==> (#[trigger] servers@[i])@ == initial_backend(
                    list@[i].url@,
                    match list@[i].region {
                        Some(r) => Some(r@),
                        None => None,
                    },
                ),
            None => servers@.len() == 0,
        },
{
    let mut servers: Vec<ServerStatus> = Vec::new();
    if let Some(list) = &configs {
        let mut i: usize = 0;
        while i < list.len()
            invariant
                i <= list.len(),
                servers@.len() == i,
                forall|j: int|
                    0 <= j < i ==> (#[trigger] servers@[j])@ == initial_backend(
                        list@[j].url@,
                        match list@[j].region {
                            Some(r) => Some(r@),
                            None => None,
                        },
                    ),
            decreases list.len() - i,
        {
            servers.push(ServerStatus::new(&list[i]));
            i = i + 1;
        }
    }
    servers
}

impl View for ServerStatus {
    type V = BackendView;

    closed spec fn view(&self) -> BackendView {
        BackendView {
            url: self.url@,
            region: self.region@,
            healthy: self.healthy,
            response_time: self.response_time,
            last_check: match self.last_check {
                Some(s) => Some(s@),
                None => None,
            },
            uptime: self.uptime as nat,
            downtime: self.downtime as nat,
            history: self.history@,
        }
    }
}

impl ServerStatus {
    #[verifier::type_invariant]
    spec fn bounded(self) -> bool {
        self.history@.len() <= HISTORY_CAPACITY
    }

    /// A fresh record for a configured backend. A missing region reads "-".
    pub fn new(config: &ServerConfig) -> (status: ServerStatus)
        ensures
            status@ == initial_backend(
                config.url@,
                match config.region {
                    Some(r) => Some(r@),
                    None => None,
                },
            ),
    {
        let region = match &config.region {
            Some(r) => r.clone(),
            None => {
                proof {
                    reveal_strlit("-");
                }
                let dash = String::from_str("-");
                assert(dash@ =~= seq!['-']);
                dash
            },
        };
        ServerStatus {
            url: config.url.clone(),
            region,
            healthy: false,
            response_time: None,
            last_check: None,
            uptime: 0,
            downtime: 0,
            history: Vec::new(),
        }
    }

    /// The backend's base URL, the key it is known by.
    pub fn url(&self) -> (url: &String)
        ensures
            url@ == self@.url,
    {
        &self.url
    }

    /// Whether the last probe found the backend alive.
    pub fn healthy(&self) -> (healthy: bool)
        ensures
            healthy == self@.healthy,
    {
        self.healthy
    }

    /// The region label; "-" where none was configured.
    pub fn region(&self) -> (region: &String)
        ensures
            region@ == self@.region,
    {
        &self.region
    }

    /// Latency of the last probe in milliseconds, if it found the backend
    /// alive.
    pub fn response_time(&self) -> (latency: Option<u128>)
        ensures
            latency == self@.response_time,
    {
        self.response_time
    }

    /// When the backend was last probed; nothing before the first probe.
    pub fn last_check(&self) -> (at: Option<&String>)
        ensures
            match at {
                Some(text) => self@.last_check == Some(text@),
                None => self@.last_check is None,
            },
    {
        self.last_check.as_ref()
    }

    /// How many probes found the backend alive.
    pub fn uptime(&self) -> (count: u64)
        ensures
            count == self@.uptime,
    {
        self.uptime
    }

    /// How many probes failed.
    pub fn downtime(&self) -> (count: u64)
        ensures
            count == self@.downtime,
    {
        self.downtime
    }

    /// The latest probe results, oldest first: at most `HISTORY_CAPACITY`.
    pub fn history(&self) -> (history: &Vec<Option<u128>>)
        ensures
            history@ == self@.history,
            history@.len() <= HISTORY_CAPACITY,
    {
        proof {
            use_type_invariant(self);
        }
        &self.history
    }

    /// An independent copy of this record.
    pub fn duplicate(&self) -> (copy: ServerStatus)
        ensures
            copy@ == self@,
    {
        proof {
            use_type_invariant(self);
        }
        let mut history: Vec<Option<u128>> = Vec::new();
        let mut i: usize = 0;
        while i < self.history.len()
            invariant
                i <= self.history.len(),
                history@ == self.history@.take(i as int),
            decreases self.history.len() - i,
        {
            history.push(self.history[i]);
            i = i + 1;
        }
        assert(self.history@.take(i as int) =~= self.history@);
        let last_check = match &self.last_check {
            Some(at) => Some(at.clone()),
            None => None,
        };
        ServerStatus {
            url: self.url.clone(),
            region: self.region.clone(),
            healthy: self.healthy,
            response_time: self.response_time,
            last_check,
            uptime: self.uptime,
            downtime: self.downtime,
            history,
        }
    }

    /// Records one probe result: liveness, latency, counters, and one more
    /// history entry, evicting the oldest beyond the capacity.
    pub fn apply_probe(&mut self, healthy: bool, elapsed_ms: u128, checked_at: String)
        requires
            healthy ==> old(self)@.uptime < u64::MAX,
            !healthy ==> old(self)@.downtime < u64::MAX,
        ensures
            final(self)@ == record_probe(old(self)@, healthy, elapsed_ms, checked_at@),
            final(self)@.history.len() <= HISTORY_CAPACITY,
    {
        proof {
            use_type_invariant(&*self);
        }
        let ghost before = self.history@;
        let entry: Option<u128> = if healthy { Some(elapsed_ms) } else { Some(0) };
        let kept_from: usize = if self.history.len() >= HISTORY_CAPACITY { 1 } else { 0 };
        let mut next: Vec<Option<u128>> = Vec::new();
        let mut i: usize = kept_from;
        while i < self.history.len()
            invariant
                kept_from <= i <= self.history.len(),
                self.history@ == before,
                next@ == before.subrange(kept_from as int, i as int),
            decreases self.history.len() - i,
        {
            next.push(self.history[i]);
            i = i + 1;
        }
        next.push(entry);
        self.history = next;
        self.last_check = Some(checked_at);
        self.healthy = healthy;
        if healthy {
            self.response_time = Some(elapsed_ms);
            self.uptime = self.uptime + 1;
        } else {
            self.response_time = None;
            self.downtime = self.downtime + 1;
        }
        assert(self.history@ =~= push_bounded(before, history_entry(healthy, elapsed_ms)));
    }
}

} // verus!
