//! Backend selection: session affinity first, round-robin over the healthy
//! backends otherwise.

use vstd::prelude::*;
use vstd::arithmetic::div_mod::{
    lemma_add_mod_noop, lemma_fundamental_div_mod, lemma_fundamental_div_mod_converse,
    lemma_mod_add_multiples_vanish, lemma_mod_bound, lemma_small_mod,
};
use crate::backend::{BackendView, ServerStatus};
use crate::registry::{backend_views, AppState, RegistryView};

verus! {

/// The positions of the healthy backends, in registry order.
pub open spec fn healthy_indices(servers: Seq<BackendView>) -> Seq<int>
    decreases servers.len(),
{
    if servers.len() == 0 {
        Seq::empty()
    } else {
        let before = healthy_indices(servers.drop_last());
        if servers.last().healthy {
            before.push(servers.len() - 1)
        } else {
            before
        }
    }
}

/// Some healthy backend is known by this URL.
pub open spec fn serves(servers: Seq<BackendView>, url: Seq<char>) -> bool {
    exists|i: int| 0 <= i < servers.len() && (#[trigger] servers[i]).url == url && servers[i].healthy
}

/// The client has an affinity entry, and it names a healthy backend.
pub open spec fn sticky_hit(r: RegistryView, client: Seq<char>) -> bool {
    r.affinity.contains_key(client) && serves(r.servers, r.affinity[client])
}

/// The cursor after one round-robin step over `count` healthy backends.
pub open spec fn next_cursor(cursor: nat, count: nat) -> nat {
    ((cursor + 1) % count) as nat
}

/// Selection as a function: the registry afterwards, and the URL chosen.
pub open spec fn select(r: RegistryView, client: Seq<char>) -> (RegistryView, Option<Seq<char>>) {
    let alive = healthy_indices(r.servers);
    if sticky_hit(r, client) {
        (r, Some(r.affinity[client]))
    } else if alive.len() == 0 {
        (r, None)
    } else {
        let cursor = next_cursor(r.cursor, alive.len());
        let url = r.servers[alive[cursor as int]].url;
        (
            RegistryView {
                servers: r.servers,
                affinity: r.affinity.insert(client, url),
                cursor,
            },
            Some(url),
        )
    }
}

/// The healthy positions are exactly the positions of healthy backends,
/// each once and in ascending order.
pub proof fn lemma_healthy_indices(servers: Seq<BackendView>)
    ensures
        healthy_indices(servers).len() <= servers.len(),
        forall|k: int|
            0 <= k < healthy_indices(servers).len() ==> 0 <= (#[trigger] healthy_indices(
                servers,
            )[k]) < servers.len() && servers[healthy_indices(servers)[k]].healthy,
        forall|j: int, k: int|
            0 <= j < k < healthy_indices(servers).len() ==> healthy_indices(servers)[j]
                < healthy_indices(servers)[k],
        forall|i: int|
            0 <= i < servers.len() && (#[trigger] servers[i]).healthy ==> healthy_indices(
                servers,
            ).contains(i),
    decreases servers.len(),
{
    if servers.len() > 0 {
        let shorter = servers.drop_last();
        let before = healthy_indices(shorter);
        let all = healthy_indices(servers);
        lemma_healthy_indices(shorter);
        assert forall|i: int| 0 <= i < servers.len() && (#[trigger] servers[i]).healthy implies all.contains(
            i,
        ) by {
            if i < shorter.len() {
                assert(shorter[i].healthy);
                let k = choose|k: int| 0 <= k < before.len() && before[k] == i;
                assert(all[k] == i);
            } else {
                assert(all[all.len() - 1] == i);
            }
        }
    }
}

/// The registry after each client of a run has been served in turn.
pub open spec fn select_all(r: RegistryView, clients: Seq<Seq<char>>) -> RegistryView
    decreases clients.len(),
{
    if clients.len() == 0 {
        r
    } else {
        select(select_all(r, clients.drop_last()), clients.last()).0
    }
}

/// What the client at position `k` of a run is given.
pub open spec fn selected(r: RegistryView, clients: Seq<Seq<char>>, k: int) -> Option<Seq<char>> {
    select(select_all(r, clients.take(k)), clients[k]).1
}

/// No client of the run is sent back to a backend it was pinned to.
pub open spec fn no_sticky_hits(r: RegistryView, clients: Seq<Seq<char>>) -> bool {
    forall|k: int|
        0 <= k < clients.len() ==> !sticky_hit(#[trigger] select_all(r, clients.take(k)), clients[k])
}

/// The healthy position that the round-robin reaches `k` steps on.
pub open spec fn rotation(cursor: nat, count: nat, k: int) -> int {
    (cursor + 1 + k) % (count as int)
}

/// Some step of one full round reaches this healthy position.
pub open spec fn visits(cursor: nat, count: nat, position: int) -> bool {
    exists|k: int| 0 <= k < count && #[trigger] rotation(cursor, count, k) == position
}

/// Selections change neither the backends nor, therefore, which are healthy.
pub proof fn lemma_select_all_keeps_servers(r: RegistryView, clients: Seq<Seq<char>>)
    ensures
        select_all(r, clients).servers == r.servers,
    decreases clients.len(),
{
    if clients.len() > 0 {
        lemma_select_all_keeps_servers(r, clients.drop_last());
    }
}

/// Round-robin goes through the healthy backends in order: with no sticky
/// hits, the client at position `k` of a run is given the healthy backend `k`
/// steps after the cursor, wrapping around at the end.
pub proof fn lemma_round_robin_in_order(r: RegistryView, clients: Seq<Seq<char>>)
    requires
        healthy_indices(r.servers).len() > 0,
        no_sticky_hits(r, clients),
    ensures
        clients.len() > 0 ==> select_all(r, clients).cursor == rotation(
            r.cursor,
            healthy_indices(r.servers).len(),
            clients.len() - 1,
        ),
        forall|k: int|
            0 <= k < clients.len() ==> #[trigger] selected(r, clients, k) == Some(
                r.servers[healthy_indices(r.servers)[rotation(
                    r.cursor,
                    healthy_indices(r.servers).len(),
                    k,
                )]].url,
            ),
    decreases clients.len(),
{
    let alive = healthy_indices(r.servers);
    let count = alive.len();
    if clients.len() > 0 {
        let earlier = clients.drop_last();
        let last = clients.len() - 1;
        assert forall|k: int| 0 <= k < earlier.len() implies !sticky_hit(
            #[trigger] select_all(r, earlier.take(k)),
            earlier[k],
        ) by {
            assert(earlier.take(k) =~= clients.take(k));
        }
        lemma_round_robin_in_order(r, earlier);
        lemma_select_all_keeps_servers(r, earlier);
        assert(clients.take(last) =~= earlier);
        let mid = select_all(r, earlier);
        assert(!sticky_hit(mid, clients[last]));
        assert(next_cursor(mid.cursor, count) == rotation(r.cursor, count, last)) by {
            if earlier.len() > 0 {
                lemma_add_mod_noop(r.cursor + last, 1, count as int);
                if count > 1 {
                    lemma_small_mod(1, count);
                }
            }
        }
        assert forall|k: int| 0 <= k < clients.len() implies #[trigger] selected(r, clients, k)
            == Some(r.servers[alive[rotation(r.cursor, count, k)]].url) by {
            if k < last {
                assert(clients.take(k) =~= earlier.take(k));
                assert(selected(r, earlier, k) == selected(r, clients, k));
            }
        }
    }
}

/// A full round visits every healthy backend exactly once: within as many
/// steps as there are healthy backends no position comes twice, each position
/// comes, and after that many steps the same position comes again.
pub proof fn lemma_rotation_visits_each_once(cursor: nat, count: nat)
    requires
        count > 0,
    ensures
        forall|k: int| 0 <= #[trigger] rotation(cursor, count, k) < count,
        forall|j: int, k: int|
            0 <= j < k < count ==> #[trigger] rotation(cursor, count, j) != #[trigger] rotation(
                cursor,
                count,
                k,
            ),
        forall|p: int| 0 <= p < count ==> #[trigger] visits(cursor, count, p),
        forall|k: int| #[trigger] rotation(cursor, count, k + count) == rotation(cursor, count, k),
{
    let n = count as int;
    assert forall|k: int| 0 <= #[trigger] rotation(cursor, count, k) < count by {
        lemma_mod_bound(cursor + 1 + k, n);
    }
    assert forall|j: int, k: int| 0 <= j < k < count implies #[trigger] rotation(cursor, count, j)
        != #[trigger] rotation(cursor, count, k) by {
        if rotation(cursor, count, j) == rotation(cursor, count, k) {
            lemma_fundamental_div_mod(cursor + 1 + j, n);
            lemma_fundamental_div_mod(cursor + 1 + k, n);
            let qj = (cursor + 1 + j) / n;
            let qk = (cursor + 1 + k) / n;
            assert(k - j == n * qk - n * qj);
            assert(n * qk - n * qj == n * (qk - qj)) by (nonlinear_arith);
            assert(false) by (nonlinear_arith)
                requires
                    0 < k - j < n,
                    k - j == n * (qk - qj),
            ;
        }
    }
    assert forall|k: int| #[trigger] rotation(cursor, count, k + count) == rotation(cursor, count, k) by {
        lemma_mod_add_multiples_vanish(cursor + 1 + k, n);
    }
    assert forall|p: int| 0 <= p < count implies #[trigger] visits(cursor, count, p) by {
        let start = rotation(cursor, count, 0);
        let k = if p >= start { p - start } else { p - start + n };
        let base: int = (cursor + 1) as int;
        lemma_fundamental_div_mod(base, n);
        let q: int = base / n;
        if p >= start {
            assert(n * q == q * n) by (nonlinear_arith);
            lemma_fundamental_div_mod_converse(base + k, n, q, p);
        } else {
            assert(base + k == n * q + n + p);
            assert(n * q + n == (q + 1) * n) by (nonlinear_arith);
            lemma_fundamental_div_mod_converse(base + k, n, q + 1, p);
        }
        assert(rotation(cursor, count, k) == p);
    }
}

/// Some client of one full round is given the healthy backend at this
/// position.
pub open spec fn given_in_round(r: RegistryView, clients: Seq<Seq<char>>, position: int) -> bool {
    exists|k: int|
        0 <= k < clients.len() && #[trigger] selected(r, clients, k) == Some(
            r.servers[healthy_indices(r.servers)[position]].url,
        ) && rotation(r.cursor, healthy_indices(r.servers).len(), k) == position
}

/// With no sticky hits, as many selections in a row as there are healthy
/// backends give every healthy backend to some client, and no healthy
/// position to two of them.
pub proof fn lemma_round_visits_each_healthy_backend_once(r: RegistryView, clients: Seq<Seq<char>>)
    requires
        healthy_indices(r.servers).len() > 0,
        clients.len() == healthy_indices(r.servers).len(),
        no_sticky_hits(r, clients),
    ensures
        forall|p: int| 0 <= p < clients.len() ==> #[trigger] given_in_round(r, clients, p),
        forall|j: int, k: int|
            0 <= j < k < clients.len() ==> #[trigger] rotation(
                r.cursor,
                healthy_indices(r.servers).len(),
                j,
            ) != #[trigger] rotation(r.cursor, healthy_indices(r.servers).len(), k),
{
    let count = healthy_indices(r.servers).len();
    lemma_round_robin_in_order(r, clients);
    lemma_rotation_visits_each_once(r.cursor, count);
    assert forall|p: int| 0 <= p < clients.len() implies #[trigger] given_in_round(
        r,
        clients,
        p,
    ) by {
        assert(visits(r.cursor, count, p));
        let k = choose|k: int| 0 <= k < count && #[trigger] rotation(r.cursor, count, k) == p;
        assert(selected(r, clients, k) == Some(r.servers[healthy_indices(r.servers)[p]].url));
    }
}

/// A selection sticks: a client that was given a backend is given the same
/// one when it asks again, and the second selection changes nothing.
pub proof fn lemma_selection_sticks(r: RegistryView, client: Seq<char>)
    requires
        select(r, client).1 is Some,
    ensures
        sticky_hit(select(r, client).0, client),
        select(select(r, client).0, client) == select(r, client),
{
    if !sticky_hit(r, client) {
        let alive = healthy_indices(r.servers);
        let cursor = next_cursor(r.cursor, alive.len());
        lemma_healthy_indices(r.servers);
        lemma_mod_bound((r.cursor + 1) as int, alive.len() as int);
        let chosen = alive[cursor as int];
        let after = select(r, client).0;
        assert(after.servers[chosen].url == after.affinity[client] && after.servers[chosen].healthy);
    }
}

/// Whether some healthy backend is known by `url`.
fn serves_url(servers: &Vec<ServerStatus>, url: &String) -> (found: bool)
    ensures
        found == serves(backend_views(servers@), url@),
{
    let mut i: usize = 0;
    while i < servers.len()
        invariant
            i <= servers.len(),
            forall|j: int|
                0 <= j < i ==> !((#[trigger] backend_views(servers@)[j]).url == url@
                    && backend_views(servers@)[j].healthy),
        decreases servers.len() - i,
    {
        if *servers[i].url() == *url && servers[i].healthy() {
            assert(backend_views(servers@)[i as int].url == url@);
            return true;
        }
        i = i + 1;
    }
    false
}

/// The positions of the healthy backends.
fn alive_indices(servers: &Vec<ServerStatus>) -> (alive: Vec<usize>)
    ensures
        alive@.len() == healthy_indices(backend_views(servers@)).len(),
        forall|k: int|
            0 <= k < alive@.len() ==> (#[trigger] alive@[k]) as int == healthy_indices(
                backend_views(servers@),
            )[k],
{
    let ghost views = backend_views(servers@);
    let mut alive: Vec<usize> = Vec::new();
    let mut i: usize = 0;
    while i < servers.len()
        invariant
            i <= servers.len(),
            views == backend_views(servers@),
            alive@.len() == healthy_indices(views.take(i as int)).len(),
            forall|k: int|
                0 <= k < alive@.len() ==> (#[trigger] alive@[k]) as int == healthy_indices(
                    views.take(i as int),
                )[k],
        decreases servers.len() - i,
    {
        assert(views.take(i + 1).drop_last() =~= views.take(i as int));
        assert(views.take(i + 1).last() == servers@[i as int]@);
        if servers[i].healthy() {
            alive.push(i);
        }
        i = i + 1;
    }
    assert(views.take(i as int) =~= views);
    alive
}

/// Picks the backend for a client.
///
/// A client whose affinity entry names a healthy backend is sent there again,
/// and nothing changes. Any other client takes the next healthy backend in
/// round-robin order and is pinned to it; with no healthy backend there is
/// nothing to pick, and nothing changes.
pub fn choose_server(state: &mut AppState, client_id: &str) -> (chosen: Option<String>)
    ensures
        final(state)@ == select(old(state)@, client_id@).0,
        match chosen {
            Some(url) => select(old(state)@, client_id@).1 == Some(url@),
            None => select(old(state)@, client_id@).1 is None,
        },
        sticky_hit(old(state)@, client_id@) ==> final(state)@ == old(state)@ && chosen.is_some()
            && chosen.unwrap()@ == old(state)@.affinity[client_id@],
        !sticky_hit(old(state)@, client_id@) && healthy_indices(old(state)@.servers).len() > 0 ==> {
            let alive = healthy_indices(old(state)@.servers);
            let cursor = next_cursor(old(state)@.cursor, alive.len());
            &&& chosen.is_some()
            &&& chosen.unwrap()@ == old(state)@.servers[alive[cursor as int]].url
            &&& final(state)@.cursor == cursor
            &&& final(state)@.affinity == old(state)@.affinity.insert(client_id@, chosen.unwrap()@)
            &&& final(state)@.servers == old(state)@.servers
        },
        healthy_indices(old(state)@.servers).len() == 0 ==> chosen is None && final(state)@ == old(
            state,
        )@,
{
    let ghost before = state@;
    proof {
        state.lemma_view();
        lemma_healthy_indices(before.servers);
        if healthy_indices(before.servers).len() == 0 && sticky_hit(before, client_id@) {
            let url = before.affinity[client_id@];
            let i = choose|i: int|
                0 <= i < before.servers.len() && (#[trigger] before.servers[i]).url == url
                    && before.servers[i].healthy;
            assert(healthy_indices(before.servers).contains(i));
        }
    }
    let pinned: Option<String> = match state.sticky_map.get(client_id) {
        Some(url) => {
            assert(before.affinity[client_id@] == url@);
            if serves_url(&state.servers, url) {
                Some(url.clone())
            } else {
                None
            }
        },
        None => None,
    };
    if pinned.is_some() {
        return pinned;
    }
    assert(!sticky_hit(before, client_id@));
    let alive = alive_indices(&state.servers);
    if alive.len() == 0 {
        return None;
    }
    let count = alive.len();
    proof {
        lemma_add_mod_noop(state.rr_index as int, 1, count as int);
        if count > 1 {
            lemma_small_mod(1, count as nat);
        }
    }
    let cursor = (state.rr_index % count + 1) % count;
    assert(cursor == next_cursor(before.cursor, count as nat));
    let chosen_index = alive[cursor];
    let chosen_url = state.servers[chosen_index].url().clone();
    state.rr_index = cursor;
    state.sticky_map.insert(client_id.to_owned(), chosen_url.clone());
    proof {
        state.lemma_view();
    }
    assert(state@.affinity =~= before.affinity.insert(client_id@, chosen_url@));
    Some(chosen_url)
}

} // verus!
