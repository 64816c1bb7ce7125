use load_balancer::backend::{ServerConfig, ServerStatus};
use load_balancer::graph::ascii_graph;
use load_balancer::table::{status_row, status_rows};
use load_balancer::text::decimal;

#[test]
fn graph_marks_missing_failed_and_measured_entries() {
    let history = vec![None, Some(0), Some(5), Some(10)];
    assert_eq!(ascii_graph(&history), "\u{b7}x\u{2585}\u{2588}");
}

#[test]
fn graph_of_an_empty_history_is_empty() {
    assert_eq!(ascii_graph(&[]), "");
}

#[test]
fn graph_of_an_unprobed_backend_is_all_dots() {
    let history: Vec<Option<u128>> = vec![None; 20];
    assert_eq!(ascii_graph(&history), "\u{b7}".repeat(20));
}

#[test]
fn graph_of_failures_only_is_all_crosses() {
    assert_eq!(ascii_graph(&[Some(0), Some(0), None]), "xx\u{b7}");
}

#[test]
fn graph_has_a_block_for_each_eighth_of_the_scale() {
    let history: Vec<Option<u128>> = vec![
        Some(1),
        Some(20),
        Some(30),
        Some(43),
        Some(57),
        Some(72),
        Some(86),
        Some(100),
    ];
    assert_eq!(
        ascii_graph(&history),
        " \u{2582}\u{2583}\u{2584}\u{2585}\u{2586}\u{2587}\u{2588}"
    );
}

#[test]
fn graph_rounds_to_the_nearest_level_and_halves_upwards() {
    // 7 * 1 / 14 = 0.5 goes up to level 1; 7 * 3 / 14 = 1.5 goes up to level 2
    assert_eq!(ascii_graph(&[Some(1), Some(3), Some(14)]), "\u{2582}\u{2583}\u{2588}");
    // 7 * 7 / 100 = 0.49 stays at level 0; 7 * 8 / 100 = 0.56 goes to level 1
    assert_eq!(ascii_graph(&[Some(7), Some(8), Some(100)]), " \u{2582}\u{2588}");
}

#[test]
fn graph_of_a_single_latency_is_a_full_block() {
    assert_eq!(ascii_graph(&[Some(1)]), "\u{2588}");
    assert_eq!(ascii_graph(&[Some(u128::MAX)]), "\u{2588}");
}

#[test]
fn graph_handles_the_largest_latencies() {
    let history = vec![Some(u128::MAX), Some(u128::MAX / 2), Some(u128::MAX / 14), Some(1)];
    // MAX / 2 is just below half: 3.49.. rounds to 3; MAX / 14 just below 0.5 rounds to 0
    assert_eq!(ascii_graph(&history), "\u{2588}\u{2584}  ");
}

#[test]
fn decimal_writes_numbers_without_leading_zeros() {
    assert_eq!(decimal(0), "0");
    assert_eq!(decimal(7), "7");
    assert_eq!(decimal(10), "10");
    assert_eq!(decimal(1203), "1203");
    assert_eq!(decimal(u128::MAX), "340282366920938463463374607431768211455");
    for n in [0u128, 9, 99, 100, 101, 65535, 1 << 64] {
        assert_eq!(decimal(n), n.to_string());
    }
}

#[test]
fn row_of_an_unprobed_backend_has_dashes() {
    let s = ServerStatus::new(&ServerConfig { url: "http://a".to_string(), region: None });
    let row = status_row(4, &s);
    assert_eq!(row.index, "4");
    assert_eq!(row.url, "http://a");
    assert_eq!(row.region, "-");
    assert_eq!(row.health, "\u{1f534}");
    assert_eq!(row.response, "-");
    assert_eq!(row.graph, "");
    assert_eq!(row.last_check, "-");
}

#[test]
fn rows_follow_the_records() {
    let mut a = ServerStatus::new(&ServerConfig {
        url: "http://a".to_string(),
        region: Some("eu".to_string()),
    });
    a.apply_probe(false, 2000, "10:00:00".to_string());
    a.apply_probe(true, 5, "10:00:05".to_string());
    a.apply_probe(true, 10, "10:00:10".to_string());
    let mut b = ServerStatus::new(&ServerConfig { url: "http://b".to_string(), region: None });
    b.apply_probe(false, 2000, "10:00:10".to_string());
    let rows = status_rows(&vec![a, b]);
    assert_eq!(rows.len(), 2);
    assert_eq!(rows[0].index, "0");
    assert_eq!(rows[0].region, "eu");
    assert_eq!(rows[0].health, "\u{1f7e2}");
    assert_eq!(rows[0].response, "10");
    assert_eq!(rows[0].graph, "x\u{2585}\u{2588}");
    assert_eq!(rows[0].last_check, "10:00:10");
    assert_eq!(rows[1].index, "1");
    assert_eq!(rows[1].url, "http://b");
    assert_eq!(rows[1].health, "\u{1f534}");
    assert_eq!(rows[1].response, "-");
    assert_eq!(rows[1].graph, "x");
    assert_eq!(rows[1].last_check, "10:00:10");
}
