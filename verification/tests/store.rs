use nrql_tui::dataset::{Bounds, Datasets, FacetColors, Logs};

fn bounds(a: u64, b: u64, c: u64, d: u64) -> Bounds {
    Bounds { mins: (a, b), maxes: (c, d) }
}

fn series(key: &str, pts: Vec<(u64, u64)>) -> (String, Vec<(u64, u64)>) {
    (key.to_string(), pts)
}

#[test]
fn upsert_creates_then_updates_in_place() {
    let mut ds = Datasets::new();
    ds.upsert("q1".to_string(), vec![series("a", vec![(1, 2)])], bounds(1, 2, 3, 4));
    assert_eq!(ds.len(), 1);
    assert!(ds.entries[0].1.has_data);
    assert!(ds.entries[0].1.query_alias.is_none());
    ds.upsert("q1".to_string(), vec![series("a", vec![(5, 6)])], bounds(5, 6, 7, 8));
    assert_eq!(ds.len(), 1);
    assert_eq!(ds.entries[0].1.facets[0].1, vec![(5, 6)]);
    assert_eq!(ds.entries[0].1.bounds.mins, (5, 6));
}

#[test]
fn upsert_is_idempotent() {
    let mut once = Datasets::new();
    once.rename("q1".to_string(), "alias".to_string());
    once.upsert("q1".to_string(), vec![series("a", vec![(1, 2), (3, 4)])], bounds(1, 2, 3, 4));

    let mut twice = Datasets::new();
    twice.rename("q1".to_string(), "alias".to_string());
    twice.upsert("q1".to_string(), vec![series("a", vec![(1, 2), (3, 4)])], bounds(1, 2, 3, 4));
    twice.upsert("q1".to_string(), vec![series("a", vec![(1, 2), (3, 4)])], bounds(1, 2, 3, 4));

    assert_eq!(once.len(), twice.len());
    assert_eq!(once.entries[0].0, twice.entries[0].0);
    assert_eq!(once.entries[0].1.query_alias, twice.entries[0].1.query_alias);
    assert_eq!(once.entries[0].1.facets, twice.entries[0].1.facets);
    assert_eq!(once.entries[0].1.bounds.mins, twice.entries[0].1.bounds.mins);
    assert_eq!(once.entries[0].1.bounds.maxes, twice.entries[0].1.bounds.maxes);
    assert_eq!(once.entries[0].1.has_data, twice.entries[0].1.has_data);
}

#[test]
fn rename_unknown_key_creates_placeholder() {
    let mut ds = Datasets::new();
    ds.rename("q1".to_string(), "my alias".to_string());
    assert_eq!(ds.len(), 1);
    let entry = &ds.entries[0].1;
    assert!(!entry.has_data);
    assert_eq!(entry.query_alias.as_deref(), Some("my alias"));
    assert!(entry.facets.is_empty());
    assert_eq!(entry.bounds.mins, (0, 0));
    assert_eq!(entry.bounds.maxes, (0, 0));
}

#[test]
fn payload_after_rename_keeps_alias_and_sets_data() {
    let mut ds = Datasets::new();
    ds.rename("q1".to_string(), "my alias".to_string());
    ds.upsert("q1".to_string(), vec![series("a", vec![(1, 2)])], bounds(1, 2, 3, 4));
    assert_eq!(ds.len(), 1);
    let entry = &ds.entries[0].1;
    assert!(entry.has_data);
    assert_eq!(entry.query_alias.as_deref(), Some("my alias"));
    assert_eq!(entry.facets.len(), 1);
}

#[test]
fn remove_keeps_relative_order_and_clamps_selection() {
    let mut ds = Datasets::new();
    ds.upsert("a".to_string(), vec![], bounds(0, 0, 0, 0));
    ds.upsert("b".to_string(), vec![], bounds(0, 0, 0, 0));
    ds.upsert("c".to_string(), vec![], bounds(0, 0, 0, 0));
    ds.select_next();
    ds.select_next();
    ds.select_next();
    assert_eq!(ds.selected_index, Some(2));
    let removed = ds.remove_at(1);
    assert_eq!(removed, "b");
    assert_eq!(ds.entries[0].0, "a");
    assert_eq!(ds.entries[1].0, "c");
    assert_eq!(ds.selected_index, Some(1));
    ds.remove_at(1);
    assert_eq!(ds.selected_index, Some(0));
    ds.remove_at(0);
    assert_eq!(ds.selected_index, None);
    assert!(ds.is_empty());
}

#[test]
fn delete_with_nothing_selected_is_noop() {
    let mut ds = Datasets::new();
    ds.upsert("a".to_string(), vec![], bounds(0, 0, 0, 0));
    let removed = ds.delete_selected();
    assert!(removed.is_none());
    assert_eq!(ds.len(), 1);
}

#[test]
fn selection_wraps_circularly() {
    let mut ds = Datasets::new();
    ds.upsert("a".to_string(), vec![], bounds(0, 0, 0, 0));
    ds.upsert("b".to_string(), vec![], bounds(0, 0, 0, 0));
    ds.upsert("c".to_string(), vec![], bounds(0, 0, 0, 0));
    ds.select_next();
    ds.select_next();
    ds.select_next();
    assert_eq!(ds.selected_index, Some(2));
    ds.select_next();
    assert_eq!(ds.selected_index, Some(0));
    assert_eq!(ds.selected, "a");
    ds.select_previous();
    assert_eq!(ds.selected_index, Some(2));
    assert_eq!(ds.selected, "c");
}

#[test]
fn selection_is_noop_on_empty_list() {
    let mut ds = Datasets::new();
    ds.select_next();
    assert_eq!(ds.selected_index, None);
    ds.select_previous();
    assert_eq!(ds.selected_index, None);
}

fn log_entry(ts: &str, lines: Vec<&str>) -> (String, Vec<String>) {
    (ts.to_string(), lines.into_iter().map(|l| l.to_string()).collect())
}

#[test]
fn filters_narrow_and_never_restore() {
    let mut logs = Logs::new();
    logs.logs.push(log_entry("t1", vec!["all good", "ERROR: disk full"]));
    logs.logs.push(log_entry("t2", vec!["request timeout"]));
    logs.logs.push(log_entry("t3", vec!["nothing to see"]));

    logs.add_filter("ERROR".to_string());
    assert_eq!(logs.logs.len(), 1);
    assert_eq!(logs.logs[0].0, "t1");

    logs.add_filter("timeout".to_string());
    assert_eq!(logs.logs.len(), 1);
    assert_eq!(logs.logs[0].0, "t1");
    assert_eq!(logs.filters.len(), 2);
}

#[test]
fn filter_is_substring_match_on_any_line() {
    let mut logs = Logs::new();
    logs.logs.push(log_entry("t1", vec!["prefix ERROR suffix"]));
    logs.logs.push(log_entry("t2", vec!["error lowercase"]));
    logs.add_filter("ERROR".to_string());
    assert_eq!(logs.logs.len(), 1);
    assert_eq!(logs.logs[0].0, "t1");
}

#[test]
fn facet_colors_assigned_once_and_kept() {
    let mut colors = FacetColors::new();
    colors.assign("pre".to_string(), (1, 2, 3));
    colors.assign("us-east".to_string(), (10, 20, 30));
    colors.assign("eu-west".to_string(), (40, 50, 60));
    assert_eq!(colors.entries.len(), 3);
    assert_eq!(colors.entries[0].0, "pre");
    assert_eq!(colors.entries[0].1, (1, 2, 3));
    assert_eq!(colors.entries[1].0, "us-east");
    assert_eq!(colors.entries[2].0, "eu-west");
    colors.assign("us-east".to_string(), (99, 99, 99));
    assert_eq!(colors.entries.len(), 3);
    assert_eq!(colors.entries[1].1, (10, 20, 30));
}

#[test]
fn tombstoned_payload_is_dropped() {
    let mut ds = Datasets::new();
    ds.upsert("q1".to_string(), vec![], bounds(0, 0, 0, 0));
    ds.select_next();
    let removed = ds.delete_selected().unwrap();
    assert_eq!(removed, "q1");
    assert!(ds.is_empty());
    let applied = ds.apply_payload("q1".to_string(), vec![], bounds(1, 1, 1, 1));
    assert!(!applied);
    assert!(ds.is_empty());
}

#[test]
fn re_added_query_accepts_payloads_again() {
    let mut ds = Datasets::new();
    ds.upsert("q1".to_string(), vec![], bounds(0, 0, 0, 0));
    ds.select_next();
    ds.delete_selected();
    ds.note_added(&"q1".to_string());
    let applied = ds.apply_payload("q1".to_string(), vec![], bounds(1, 1, 1, 1));
    assert!(applied);
    assert_eq!(ds.len(), 1);
}
