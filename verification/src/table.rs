//! The rows of the status table: the text of each column for one backend.

use vstd::prelude::*;
use vstd::string::StringExecFns;
use crate::backend::{BackendView, ServerStatus};
use crate::graph::{ascii_graph, graph_of};
use crate::registry::backend_views;
use crate::text::{decimal, decimal_digits};

verus! {

/// One row of the status table, column by column.
pub struct StatusRow {
    /// The backend's position in the registry.
    pub index: String,
    pub url: String,
    pub region: String,
    /// A green mark for a healthy backend, a red one otherwise.
    pub health: String,
    /// The last latency in milliseconds, or a dash.
    pub response: String,
    /// The latency history as a bar graph.
    pub graph: String,
    /// When the backend was last probed, or a dash.
    pub last_check: String,
}

/// The row says of the backend at `index` what its record holds.
pub open spec fn is_row_of(row: StatusRow, index: nat, b: BackendView) -> bool {
    &&& row.index@ == decimal_digits(index)
    &&& row.url@ == b.url
    &&& row.region@ == b.region
    &&& row.health@ == if b.healthy {
        "🟢"@
    } else {
        "🔴"@
    }
    &&& row.response@ == match b.response_time {
        Some(latency) => decimal_digits(latency as nat),
        None => "-"@,
    }
    &&& row.graph@ == graph_of(b.history)
    &&& row.last_check@ == match b.last_check {
        Some(at) => at,
        None => "-"@,
    }
}

/// The row for the backend at `index`.
pub fn status_row(index: usize, status: &ServerStatus) -> (row: StatusRow)
    ensures
        is_row_of(row, index as nat, status@),
{
    let health = if status.healthy() {
        String::from_str("🟢")
    } else {
        String::from_str("🔴")
    };
    let response = match status.response_time() {
        Some(latency) => decimal(latency),
        None => String::from_str("-"),
    };
    let last_check = match status.last_check() {
        Some(at) => at.clone(),
        None => String::from_str("-"),
    };
    StatusRow {
        index: decimal(index as u128),
        url: status.url().clone(),
        region: status.region().clone(),
        health,
        response,
        graph: ascii_graph(status.history().as_slice()),
        last_check,
    }
}

/// The rows of the whole table, one for each backend, in registry order.
pub fn status_rows(servers: &Vec<ServerStatus>) -> (rows: Vec<StatusRow>)
    ensures
        rows@.len() == servers@.len(),
        forall|i: int|
            0 <= i < rows@.len() ==> is_row_of(
                #[trigger] rows@[i],
                i as nat,
                backend_views(servers@)[i],
            ),
{
    let mut rows: Vec<StatusRow> = Vec::new();
    let mut i: usize = 0;
    while i < servers.len()
        invariant
            i <= servers.len(),
            rows@.len() == i,
            forall|j: int|
                0 <= j < i ==> is_row_of(#[trigger] rows@[j], j as nat, backend_views(servers@)[j]),
        decreases servers.len() - i,
    {
        rows.push(status_row(i, &servers[i]));
        i = i + 1;
    }
    rows
}

} // verus!
