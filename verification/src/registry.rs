//! The registry: every backend record, the session-affinity map and the
//! round-robin cursor, owned as one value that callers keep behind a lock.

use vstd::prelude::*;
use vstd::hash_map::StringHashMap;
use crate::backend::{
    history_entry, latest, lemma_push_keeps_latest, outcome_is_healthy, record_probe, BackendView,
    ProbeOutcome, ServerStatus, HISTORY_CAPACITY,
};

verus! {

/// Mathematical view of the registry.
pub struct RegistryView {
    /// The backends, in the order given at startup.
    pub servers: Seq<BackendView>,
    /// Client identity to the URL of the backend it was last sent to.
    pub affinity: Map<Seq<char>, Seq<char>>,
    /// Position of the last round-robin pick among the healthy backends.
    pub cursor: nat,
}

/// The outcome of probing the backend at `index`.
pub struct ProbeResult {
    pub index: usize,
    pub outcome: ProbeOutcome,
    pub elapsed_ms: u128,
    pub checked_at: String,
}

/// Mathematical view of a probe result.
pub struct ProbeView {
    pub index: int,
    pub healthy: bool,
    pub elapsed_ms: u128,
    pub checked_at: Seq<char>,
}

impl View for ProbeResult {
    type V = ProbeView;

    open spec fn view(&self) -> ProbeView {
        ProbeView {
            index: self.index as int,
            healthy: outcome_is_healthy(self.outcome),
            elapsed_ms: self.elapsed_ms,
            checked_at: self.checked_at@,
        }
    }
}

/// The views of a list of probe results.
pub open spec fn probe_views(updates: Seq<ProbeResult>) -> Seq<ProbeView> {
    updates.map_values(|u: ProbeResult| u@)
}

/// The views of a list of backend records.
pub open spec fn backend_views(servers: Seq<ServerStatus>) -> Seq<BackendView> {
    servers.map_values(|s: ServerStatus| s@)
}

/// The backends after one probe result: only the probed record changes.
pub open spec fn apply_one(servers: Seq<BackendView>, u: ProbeView) -> Seq<BackendView> {
    if 0 <= u.index < servers.len() {
        servers.update(
            u.index,
            record_probe(servers[u.index], u.healthy, u.elapsed_ms, u.checked_at),
        )
    } else {
        servers
    }
}

/// The backends after a batch of probe results, applied in order.
pub open spec fn apply_all(servers: Seq<BackendView>, updates: Seq<ProbeView>) -> Seq<BackendView>
    decreases updates.len(),
{
    if updates.len() == 0 {
        servers
    } else {
        apply_one(apply_all(servers, updates.drop_last()), updates.last())
    }
}

/// The results of a batch that are for the backend at `index`, in order.
pub open spec fn probes_for(updates: Seq<ProbeView>, index: int) -> Seq<ProbeView>
    decreases updates.len(),
{
    if updates.len() == 0 {
        Seq::empty()
    } else {
        let before = probes_for(updates.drop_last(), index);
        if updates.last().index == index {
            before.push(updates.last())
        } else {
            before
        }
    }
}

/// One backend's record after a run of probe results for it.
pub open spec fn record_all(b: BackendView, probes: Seq<ProbeView>) -> BackendView
    decreases probes.len(),
{
    if probes.len() == 0 {
        b
    } else {
        let p = probes.last();
        record_probe(record_all(b, probes.drop_last()), p.healthy, p.elapsed_ms, p.checked_at)
    }
}

/// The history entries that a run of probe results leaves.
pub open spec fn entries_of(probes: Seq<ProbeView>) -> Seq<Option<u128>> {
    probes.map_values(|p: ProbeView| history_entry(p.healthy, p.elapsed_ms))
}

/// Applying a batch keeps every backend in place, and each backend's record
/// afterwards is what its own results make of it: a result for one backend,
/// failed or not, leaves every other record as it was.
pub proof fn lemma_backend_sees_own_probes(
    servers: Seq<BackendView>,
    updates: Seq<ProbeView>,
    index: int,
)
    requires
        0 <= index < servers.len(),
    ensures
        apply_all(servers, updates).len() == servers.len(),
        apply_all(servers, updates)[index] == record_all(servers[index], probes_for(updates, index)),
        probes_for(updates, index).len() == 0 ==> apply_all(servers, updates)[index]
            == servers[index],
    decreases updates.len(),
{
    if updates.len() > 0 {
        lemma_backend_sees_own_probes(servers, updates.drop_last(), index);
        if updates.last().index == index {
            assert(probes_for(updates, index).drop_last() =~= probes_for(
                updates.drop_last(),
                index,
            ));
        }
    }
}

/// Two batches that agree on the results for one backend leave that backend
/// with the same record, whatever they hold for the others.
pub proof fn lemma_other_probes_do_not_matter(
    servers: Seq<BackendView>,
    first: Seq<ProbeView>,
    second: Seq<ProbeView>,
    index: int,
)
    requires
        0 <= index < servers.len(),
        probes_for(first, index) == probes_for(second, index),
    ensures
        apply_all(servers, first)[index] == apply_all(servers, second)[index],
{
    lemma_backend_sees_own_probes(servers, first, index);
    lemma_backend_sees_own_probes(servers, second, index);
}

/// However many probe results a backend takes, its history stays within the
/// capacity and holds the newest entries, the oldest having left first.
pub proof fn lemma_history_keeps_latest(b: BackendView, probes: Seq<ProbeView>)
    requires
        b.history.len() <= HISTORY_CAPACITY,
    ensures
        record_all(b, probes).history.len() <= HISTORY_CAPACITY,
        record_all(b, probes).history == latest(b.history + entries_of(probes)),
    decreases probes.len(),
{
    if probes.len() == 0 {
        assert(b.history + entries_of(probes) =~= b.history);
    } else {
        let earlier = probes.drop_last();
        let p = probes.last();
        let entry = history_entry(p.healthy, p.elapsed_ms);
        lemma_history_keeps_latest(b, earlier);
        let run = b.history + entries_of(earlier);
        lemma_push_keeps_latest(record_all(b, earlier).history, entry);
        assert(run.push(entry) =~= b.history + entries_of(probes));
        assert(latest(latest(run).push(entry)) =~= latest(run.push(entry)));
    }
}

/// After any batch, every backend's history is within the capacity.
pub proof fn lemma_batch_keeps_histories_bounded(servers: Seq<BackendView>, updates: Seq<ProbeView>)
    requires
        forall|i: int| 0 <= i < servers.len() ==> (#[trigger] servers[i]).history.len() <= HISTORY_CAPACITY,
    ensures
        apply_all(servers, updates).len() == servers.len(),
        forall|i: int|
            0 <= i < servers.len() ==> (#[trigger] apply_all(servers, updates)[i]).history.len()
                <= HISTORY_CAPACITY,
{
    assert forall|i: int| 0 <= i < servers.len() implies (#[trigger] apply_all(
        servers,
        updates,
    )[i]).history.len() <= HISTORY_CAPACITY by {
        lemma_backend_sees_own_probes(servers, updates, i);
        lemma_history_keeps_latest(servers[i], probes_for(updates, i));
    }
    if servers.len() > 0 {
        lemma_backend_sees_own_probes(servers, updates, 0);
    } else {
        lemma_apply_all_len(servers, updates);
    }
}

/// A batch neither adds nor removes a backend.
pub proof fn lemma_apply_all_len(servers: Seq<BackendView>, updates: Seq<ProbeView>)
    ensures
        apply_all(servers, updates).len() == servers.len(),
    decreases updates.len(),
{
    if updates.len() > 0 {
        lemma_apply_all_len(servers, updates.drop_last());
    }
}

/// Health cycles compose: applying one batch and then another is applying
/// the two as one.
pub proof fn lemma_batches_compose(
    servers: Seq<BackendView>,
    first: Seq<ProbeView>,
    second: Seq<ProbeView>,
)
    ensures
        apply_all(apply_all(servers, first), second) == apply_all(servers, first + second),
    decreases second.len(),
{
    if second.len() == 0 {
        assert(first + second =~= first);
    } else {
        lemma_batches_compose(servers, first, second.drop_last());
        assert((first + second).drop_last() =~= first + second.drop_last());
    }
}

/// The counters only grow: after part of a batch no backend has counted more
/// than it has after the whole.
pub proof fn lemma_counters_never_fall(
    servers: Seq<BackendView>,
    updates: Seq<ProbeView>,
    done: int,
    index: int,
)
    requires
        0 <= done <= updates.len(),
        0 <= index < servers.len(),
    ensures
        apply_all(servers, updates.take(done)).len() == servers.len(),
        apply_all(servers, updates).len() == servers.len(),
        apply_all(servers, updates.take(done))[index].uptime <= apply_all(
            servers,
            updates,
        )[index].uptime,
        apply_all(servers, updates.take(done))[index].downtime <= apply_all(
            servers,
            updates,
        )[index].downtime,
    decreases updates.len() - done,
{
    lemma_apply_all_len(servers, updates.take(done));
    lemma_apply_all_len(servers, updates);
    if done == updates.len() {
        assert(updates.take(done) =~= updates);
    } else {
        lemma_counters_never_fall(servers, updates, done + 1, index);
        assert(updates.take(done + 1).drop_last() =~= updates.take(done));
    }
}

/// A batch can be applied: every result names a backend, and every counter
/// after the batch is one that the record can hold.
pub open spec fn batch_fits(servers: Seq<BackendView>, updates: Seq<ProbeView>) -> bool {
    &&& forall|k: int| 0 <= k < updates.len() ==> 0 <= (#[trigger] updates[k]).index < servers.len()
    &&& forall|i: int|
        0 <= i < servers.len() ==> (#[trigger] apply_all(servers, updates)[i]).uptime <= u64::MAX
            && apply_all(servers, updates)[i].downtime <= u64::MAX
}

/// The shared state of the balancer.
///
/// The backends keep their positions for as long as the registry lives. An
/// affinity entry is a hint: it may name a backend that has since gone down,
/// which selection finds out and mends. Entries are never removed, so the
/// map grows with the number of distinct clients seen.
pub struct AppState {
    pub(crate) servers: Vec<ServerStatus>,
    pub(crate) sticky_map: StringHashMap<String>,
    pub(crate) rr_index: usize,
}

impl View for AppState {
    type V = RegistryView;

    closed spec fn view(&self) -> RegistryView {
        RegistryView {
            servers: backend_views(self.servers@),
            affinity: self.sticky_map@.map_values(|url: String| url@),
            cursor: self.rr_index as nat,
        }
    }
}

impl AppState {
    /// The view, spelled out over the fields.
    pub(crate) proof fn lemma_view(&self)
        ensures
            self@.servers == backend_views(self.servers@),
            self@.affinity == self.sticky_map@.map_values(|url: String| url@),
            self@.cursor == self.rr_index as nat,
    {
    }

    /// A registry over the given backends, with no affinity recorded and the
    /// cursor at the start.
    pub fn new(servers: Vec<ServerStatus>) -> (state: AppState)
        ensures
            state@.servers == backend_views(servers@),
            state@.affinity == Map::<Seq<char>, Seq<char>>::empty(),
            state@.cursor == 0,
    {
        let state = AppState { servers, sticky_map: StringHashMap::new(), rr_index: 0 };
        assert(state.sticky_map@.map_values(|url: String| url@) =~= Map::<
            Seq<char>,
            Seq<char>,
        >::empty());
        state
    }

    /// Whether a batch can be applied to the registry as it stands.
    pub fn accepts(&self, updates: &Vec<ProbeResult>) -> (fits: bool)
        ensures
            fits == batch_fits(self@.servers, probe_views(updates@)),
    {
        let ghost start = self@.servers;
        let ghost all = probe_views(updates@);
        let mut ups: Vec<u64> = Vec::new();
        let mut downs: Vec<u64> = Vec::new();
        let mut i: usize = 0;
        while i < self.servers.len()
            invariant
                i <= self.servers.len(),
                start == backend_views(self.servers@),
                ups@.len() == i,
                downs@.len() == i,
                forall|j: int| 0 <= j < i ==> (#[trigger] ups@[j]) == start[j].uptime,
                forall|j: int| 0 <= j < i ==> (#[trigger] downs@[j]) == start[j].downtime,
            decreases self.servers.len() - i,
        {
            ups.push(self.servers[i].uptime());
            downs.push(self.servers[i].downtime());
            i = i + 1;
        }
        let mut k: usize = 0;
        while k < updates.len()
            invariant
                k <= updates.len(),
                start == self@.servers,
                all == probe_views(updates@),
                ups@.len() == start.len(),
                downs@.len() == start.len(),
                apply_all(start, all.take(k as int)).len() == start.len(),
                forall|j: int| 0 <= j < k ==> 0 <= (#[trigger] all[j]).index < start.len(),
                forall|j: int|
                    0 <= j < start.len() ==> (#[trigger] ups@[j]) == apply_all(
                        start,
                        all.take(k as int),
                    )[j].uptime,
                forall|j: int|
                    0 <= j < start.len() ==> (#[trigger] downs@[j]) == apply_all(
                        start,
                        all.take(k as int),
                    )[j].downtime,
            decreases updates.len() - k,
        {
            let index = updates[k].index;
            let healthy = updates[k].outcome.is_healthy();
            assert(all[k as int] == updates@[k as int]@);
            if index >= ups.len() {
                assert(!(0 <= all[k as int].index < start.len()));
                return false;
            }
            proof {
                lemma_counters_never_fall(start, all, k + 1, index as int);
                assert(all.take(k + 1).drop_last() =~= all.take(k as int));
            }
            if healthy {
                if ups[index] == u64::MAX {
                    return false;
                }
                ups.set(index, ups[index] + 1);
            } else {
                if downs[index] == u64::MAX {
                    return false;
                }
                downs.set(index, downs[index] + 1);
            }
            k = k + 1;
        }
        assert(all.take(k as int) =~= all);
        assert forall|j: int| 0 <= j < start.len() implies (#[trigger] apply_all(start, all)[j]).uptime
            <= u64::MAX && apply_all(start, all)[j].downtime <= u64::MAX by {
            assert(ups@[j] == apply_all(start, all)[j].uptime);
            assert(downs@[j] == apply_all(start, all)[j].downtime);
        }
        true
    }

    /// Applies one health cycle's results as a batch and returns the snapshot
    /// to publish: the backends exactly as the batch left them.
    pub fn apply_updates(&mut self, updates: Vec<ProbeResult>) -> (snapshot: Vec<ServerStatus>)
        requires
            batch_fits(old(self)@.servers, probe_views(updates@)),
        ensures
            final(self)@.servers == apply_all(old(self)@.servers, probe_views(updates@)),
            final(self)@.affinity == old(self)@.affinity,
            final(self)@.cursor == old(self)@.cursor,
            backend_views(snapshot@) == final(self)@.servers,
    {
        let ghost start = self@.servers;
        let ghost all = probe_views(updates@);
        let mut k: usize = 0;
        while k < updates.len()
            invariant
                k <= updates.len(),
                all == probe_views(updates@),
                batch_fits(start, all),
                self@.servers == apply_all(start, all.take(k as int)),
                self@.servers.len() == start.len(),
                self@.affinity == old(self)@.affinity,
                self@.cursor == old(self)@.cursor,
            decreases updates.len() - k,
        {
            let u = &updates[k];
            let index = u.index;
            let healthy = u.outcome.is_healthy();
            let ghost before = self@.servers;
            assert(all[k as int] == u@);
            assert(all.take(k + 1).drop_last() =~= all.take(k as int));
            assert(all.take(k + 1).last() == all[k as int]);
            assert(before[index as int] == self.servers@[index as int]@);
            proof {
                lemma_counters_never_fall(start, all, k + 1, index as int);
                assert(apply_all(start, all.take(k + 1)) == apply_one(before, u@));
            }
            self.servers[index].apply_probe(healthy, u.elapsed_ms, u.checked_at.clone());
            assert(self@.servers =~= apply_one(before, u@));
            k = k + 1;
        }
        assert(all.take(k as int) =~= all);
        self.snapshot()
    }

    /// The backend records, in registry order.
    pub fn servers(&self) -> (servers: &Vec<ServerStatus>)
        ensures
            backend_views(servers@) == self@.servers,
    {
        &self.servers
    }

    /// Position of the last round-robin pick among the healthy backends.
    pub fn rr_index(&self) -> (cursor: usize)
        ensures
            cursor == self@.cursor,
    {
        self.rr_index
    }

    /// The URL of the backend that the client was last sent to, if any.
    pub fn sticky_target(&self, client_id: &str) -> (url: Option<String>)
        ensures
            match url {
                Some(u) => self@.affinity.contains_key(client_id@) && self@.affinity[client_id@]
                    == u@,
                None => !self@.affinity.contains_key(client_id@),
            },
    {
        match self.sticky_map.get(client_id) {
            Some(url) => Some(url.clone()),
            None => None,
        }
    }

    /// Position and URL of every backend, in registry order.
    pub fn servers_to_check(&self) -> (listed: Vec<(usize, String)>)
        ensures
            listed@.len() == self@.servers.len(),
            forall|i: int|
                0 <= i < listed@.len() ==> (#[trigger] listed@[i]).0 == i && listed@[i].1@
                    == self@.servers[i].url,
    {
        let mut listed: Vec<(usize, String)> = Vec::new();
        let mut i: usize = 0;
        while i < self.servers.len()
            invariant
                i <= self.servers.len(),
                listed@.len() == i,
                forall|j: int|
                    0 <= j < i ==> (#[trigger] listed@[j]).0 == j && listed@[j].1@
                        == self.servers@[j]@.url,
            decreases self.servers.len() - i,
        {
            listed.push((i, self.servers[i].url().clone()));
            i = i + 1;
        }
        listed
    }

    /// A copy of every backend record, as it stands now.
    pub fn snapshot(&self) -> (copy: Vec<ServerStatus>)
        ensures
            backend_views(copy@) == self@.servers,
    {
        let mut copy: Vec<ServerStatus> = Vec::new();
        let mut i: usize = 0;
        while i < self.servers.len()
            invariant
                i <= self.servers.len(),
                copy@.len() == i,
                forall|j: int| 0 <= j < i ==> (#[trigger] copy@[j])@ == self.servers@[j]@,
            decreases self.servers.len() - i,
        {
            let one = self.servers[i].duplicate();
            copy.push(one);
            i = i + 1;
        }
        assert(backend_views(copy@) =~= backend_views(self.servers@));
        copy
    }
}

} // verus!
