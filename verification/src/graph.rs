//! A one-line bar graph of a latency history, for a terminal.

use vstd::prelude::*;
use vstd::arithmetic::div_mod::lemma_fundamental_div_mod_converse;

verus! {

/// The highest bar.
pub const TOP_LEVEL: usize = 7;

/// The largest latency of a history; zero where it holds none.
pub open spec fn largest_latency(history: Seq<Option<u128>>) -> int
    decreases history.len(),
{
    if history.len() == 0 {
        0
    } else {
        let before = largest_latency(history.drop_last());
        match history.last() {
            Some(v) => if v > before { v as int } else { before },
            None => before,
        }
    }
}

/// The height of the bar for latency `v` on a scale whose top is `scale`:
/// seven times their ratio, rounded to the nearest level, halves upwards.
pub open spec fn bar_level(v: int, scale: int) -> int {
    (14 * v + scale) / (2 * scale)
}

/// The block drawn for a bar of the given height.
pub open spec fn level_symbol(level: int) -> char {
    if level <= 0 {
        ' '
    } else if level == 1 {
        '▂'
    } else if level == 2 {
        '▃'
    } else if level == 3 {
        '▄'
    } else if level == 4 {
        '▅'
    } else if level == 5 {
        '▆'
    } else if level == 6 {
        '▇'
    } else {
        '█'
    }
}

/// The character for one history entry: a dot where nothing was measured, a
/// cross for a failed probe, else a bar as high as the latency is on the scale.
pub open spec fn graph_symbol(entry: Option<u128>, scale: int) -> char {
    match entry {
        None => '·',
        Some(v) => if v == 0 {
            'x'
        } else {
            level_symbol(bar_level(v as int, scale))
        },
    }
}

/// The graph of a history: one character for each entry, oldest first, on a
/// scale whose top is the largest latency of the history.
pub open spec fn graph_of(history: Seq<Option<u128>>) -> Seq<char> {
    Seq::new(history.len(), |i: int| graph_symbol(history[i], largest_latency(history)))
}

/// No entry of a history is above its largest latency.
pub proof fn lemma_largest_latency_bounds(history: Seq<Option<u128>>, i: int)
    requires
        0 <= i < history.len(),
    ensures
        history[i] matches Some(v) ==> v <= largest_latency(history),
        0 <= largest_latency(history),
    decreases history.len(),
{
    if i < history.len() - 1 {
        lemma_largest_latency_bounds(history.drop_last(), i);
    } else if history.len() > 1 {
        lemma_largest_latency_bounds(history.drop_last(), 0);
    } else {
        assert(largest_latency(history.drop_last()) == 0);
    }
}

/// Every bar height lies between zero and the top level, and the largest
/// latency gets the highest bar.
pub proof fn lemma_bar_level_range(v: int, scale: int)
    requires
        0 < v <= scale,
    ensures
        0 <= bar_level(v, scale) <= TOP_LEVEL,
        bar_level(scale, scale) == TOP_LEVEL,
{
    assert(0 <= (14 * v + scale) / (2 * scale) <= 7) by (nonlinear_arith)
        requires
            0 < v <= scale,
    ;
    lemma_fundamental_div_mod_converse(14 * scale + scale, 2 * scale, 7, scale);
}

/// The largest latency of the history.
fn largest(history: &[Option<u128>]) -> (top: u128)
    ensures
        top == largest_latency(history@),
{
    let mut top: u128 = 0;
    let mut i: usize = 0;
    while i < history.len()
        invariant
            i <= history.len(),
            top == largest_latency(history@.take(i as int)),
        decreases history.len() - i,
    {
        assert(history@.take(i + 1).drop_last() =~= history@.take(i as int));
        if let Some(v) = history[i] {
            if v > top {
                top = v;
            }
        }
        i = i + 1;
    }
    assert(history@.take(i as int) =~= history@);
    top
}

/// The bar height for a latency, computed without leaving the range of the
/// latencies themselves.
fn level_of(v: u128, scale: u128) -> (level: usize)
    requires
        0 < v <= scale,
    ensures
        level == bar_level(v as int, scale as int),
        level <= TOP_LEVEL,
{
    // After `k` steps, `k * v == whole * scale + rest` with `rest < scale`.
    let mut whole: usize = 0;
    let mut rest: u128 = 0;
    let mut k: usize = 0;
    while k < 7
        invariant
            0 < v <= scale,
            k <= 7,
            whole <= k,
            rest < scale,
            k * v == whole * scale + rest,
        decreases 7 - k,
    {
        let ghost before = whole * scale + rest;
        assert((k + 1) * v == k * v + v) by (nonlinear_arith);
        if rest >= scale - v {
            assert((whole + 1) * scale == whole * scale + scale) by (nonlinear_arith);
            rest = rest - (scale - v);
            whole = whole + 1;
        } else {
            rest = rest + v;
        }
        k = k + 1;
    }
    let round_up = rest >= scale - rest;
    proof {
        let q = whole as int;
        let r = rest as int;
        let s = scale as int;
        assert(14 * v == 2 * (q * s) + 2 * r);
        if round_up {
            assert(14 * v + s == (q + 1) * (2 * s) + (2 * r - s)) by (nonlinear_arith)
                requires
                    14 * v == 2 * (q * s) + 2 * r,
            ;
            lemma_fundamental_div_mod_converse(14 * v + s, 2 * s, q + 1, 2 * r - s);
        } else {
            assert(14 * v + s == q * (2 * s) + (2 * r + s)) by (nonlinear_arith)
                requires
                    14 * v == 2 * (q * s) + 2 * r,
            ;
            lemma_fundamental_div_mod_converse(14 * v + s, 2 * s, q, 2 * r + s);
        }
        lemma_bar_level_range(v as int, s);
    }
    if round_up {
        whole + 1
    } else {
        whole
    }
}

/// The block for a bar height.
fn symbol_of(level: usize) -> (c: char)
    ensures
        c == level_symbol(level as int),
{
    if level == 0 {
        ' '
    } else if level == 1 {
        '▂'
    } else if level == 2 {
        '▃'
    } else if level == 3 {
        '▄'
    } else if level == 4 {
        '▅'
    } else if level == 5 {
        '▆'
    } else if level == 6 {
        '▇'
    } else {
        '█'
    }
}

/// Draws a latency history as one line of text, a character for each entry:
/// `·` where nothing was measured, `x` for a failed probe, and for a latency
/// a block whose height is the latency's share of the largest one.
pub fn ascii_graph(history: &[Option<u128>]) -> (graph: String)
    ensures
        graph@ == graph_of(history@),
{
    let scale = largest(history);
    let mut graph = String::new();
    let mut i: usize = 0;
    while i < history.len()
        invariant
            i <= history.len(),
            scale == largest_latency(history@),
            graph@.len() == i,
            forall|j: int| 0 <= j < i ==> graph@[j] == graph_symbol(history@[j], scale as int),
        decreases history.len() - i,
    {
        let symbol = match history[i] {
            None => '·',
            Some(v) => {
                if v == 0 {
                    'x'
                } else {
                    proof {
                        lemma_largest_latency_bounds(history@, i as int);
                    }
                    symbol_of(level_of(v, scale))
                }
            },
        };
        graph.push(symbol);
        i = i + 1;
    }
    assert(graph@ =~= graph_of(history@));
    graph
}

} // verus!
