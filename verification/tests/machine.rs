use nrql_tui::app::{Action, App, Focus, InputMode, KeyInput, Tab};
use nrql_tui::backend::{build_payload, cadence_fires, group_rows, TimeseriesRow};
use nrql_tui::dataset::Bounds;
use nrql_tui::parser::parse_nrql;

fn row(facet: &str, timestamp: u64, value: u64) -> TimeseriesRow {
    TimeseriesRow { facet: facet.to_string(), timestamp, value }
}

#[test]
fn grouping_preserves_response_order() {
    let rows = vec![row("a", 1, 10), row("b", 3, 20), row("a", 5, 30)];
    let grouped = group_rows(&rows);
    assert_eq!(grouped.len(), 2);
    assert_eq!(grouped[0].0, "a");
    assert_eq!(grouped[0].1, vec![(1, 10), (5, 30)]);
    assert_eq!(grouped[1].0, "b");
    assert_eq!(grouped[1].1, vec![(3, 20)]);
}

#[test]
fn payload_carries_canonical_text_and_keys() {
    let q = parse_nrql(
        "FROM T SELECT count(*) WHERE ok FACET region SINCE a UNTIL b LIMIT 5 TIMESERIES",
    )
    .unwrap();
    let rows = vec![row("us-east", 1, 3), row("eu-west", 4, 6)];
    let p = build_payload(&q, &rows, Bounds { mins: (1, 3), maxes: (5, 6) });
    assert_eq!(
        p.query,
        "FROM T SELECT count(*) as value WHERE ok FACET region SINCE a UNTIL b LIMIT 5 TIMESERIES"
    );
    assert_eq!(p.facets, vec!["us-east".to_string(), "eu-west".to_string()]);
    assert_eq!(p.data.len(), 2);
    assert_eq!(p.bounds.maxes, (5, 6));
}

#[test]
fn cadence_gate_fires_every_fifth_second() {
    assert!(cadence_fires(0));
    assert!(cadence_fires(5));
    assert!(cadence_fires(55));
    assert!(!cadence_fires(1));
    assert!(!cadence_fires(4));
    assert!(!cadence_fires(59));
}

#[test]
fn new_payload_assigns_distinct_color_entries() {
    let mut app = App::new();
    app.facet_colours.assign("pre".to_string(), (7, 7, 7));
    let q = parse_nrql(
        "FROM T SELECT count(*) WHERE ok FACET region SINCE a UNTIL b LIMIT 5 TIMESERIES",
    )
    .unwrap();
    let rows = vec![row("us-east", 1, 3), row("eu-west", 4, 6)];
    let p = build_payload(&q, &rows, Bounds { mins: (0, 0), maxes: (0, 0) });
    app.ingest_payload(p);
    assert_eq!(app.facet_colours.entries.len(), 3);
    assert_eq!(app.facet_colours.entries[0].0, "pre");
    assert_eq!(app.facet_colours.entries[0].1, (7, 7, 7));
    assert_eq!(app.facet_colours.entries[1].0, "us-east");
    assert_eq!(app.facet_colours.entries[2].0, "eu-west");
    assert_eq!(app.datasets.len(), 1);
    assert!(app.datasets.entries[0].1.has_data);
}

#[test]
fn typing_a_query_and_committing_it() {
    let mut app = App::new();
    app.session_loaded = true;
    let act = app.handle_normal_key(KeyInput::Char('e'));
    assert!(matches!(act, Action::Nothing));
    assert_eq!(app.focus.panel, Focus::QueryInput);
    assert_eq!(app.focus.input_mode, InputMode::Input);
    app.handle_input_key(KeyInput::Char('a'));
    app.handle_input_key(KeyInput::Char('c'));
    app.handle_input_key(KeyInput::Left);
    app.handle_input_key(KeyInput::Char('b'));
    let act = app.handle_input_key(KeyInput::Enter);
    match act {
        Action::AddQuery(text) => assert_eq!(text, "abc"),
        _ => panic!("expected an add-query action"),
    }
    assert_eq!(app.focus.panel, Focus::Default);
    assert_eq!(app.focus.input_mode, InputMode::Normal);
    assert!(app.focus.loading);
}

#[test]
fn backspace_edits_the_buffer() {
    let mut app = App::new();
    app.handle_normal_key(KeyInput::Char('e'));
    app.handle_input_key(KeyInput::Char('x'));
    app.handle_input_key(KeyInput::Char('y'));
    app.handle_input_key(KeyInput::Backspace);
    let act = app.handle_input_key(KeyInput::Enter);
    match act {
        Action::AddQuery(text) => assert_eq!(text, "x"),
        _ => panic!("expected an add-query action"),
    }
}

#[test]
fn deleting_selected_query_requests_cancellation() {
    let mut app = App::new();
    app.datasets.upsert("q1".to_string(), vec![], Bounds { mins: (0, 0), maxes: (0, 0) });
    app.datasets.select_next();
    let act = app.handle_normal_key(KeyInput::Char('x'));
    match act {
        Action::RemoveQuery(key) => assert_eq!(key, "q1"),
        _ => panic!("expected a remove-query action"),
    }
    assert!(app.datasets.is_empty());
    let act = app.handle_normal_key(KeyInput::Char('x'));
    assert!(matches!(act, Action::Nothing));
}

#[test]
fn rename_prompt_needs_entries() {
    let mut app = App::new();
    app.handle_normal_key(KeyInput::Char('r'));
    assert_eq!(app.focus.panel, Focus::Default);
    app.datasets.upsert("q1".to_string(), vec![], Bounds { mins: (0, 0), maxes: (0, 0) });
    app.handle_normal_key(KeyInput::Char('r'));
    assert_eq!(app.focus.panel, Focus::Rename);
    assert_eq!(app.focus.input_mode, InputMode::Input);
}

#[test]
fn committing_a_rename_aliases_the_selected_entry() {
    let mut app = App::new();
    app.datasets.upsert("q1".to_string(), vec![], Bounds { mins: (0, 0), maxes: (0, 0) });
    app.datasets.select_next();
    app.handle_normal_key(KeyInput::Char('r'));
    app.handle_input_key(KeyInput::Char('m'));
    app.handle_input_key(KeyInput::Char('e'));
    let act = app.handle_input_key(KeyInput::Enter);
    assert!(matches!(act, Action::Nothing));
    assert_eq!(app.datasets.entries[0].1.query_alias.as_deref(), Some("me"));
}

#[test]
fn search_commit_applies_destructive_filter() {
    let mut app = App::new();
    app.logs.logs.push(("t1".to_string(), vec!["ERROR here".to_string()]));
    app.logs.logs.push(("t2".to_string(), vec!["fine".to_string()]));
    app.handle_normal_key(KeyInput::Char('/'));
    assert_eq!(app.focus.panel, Focus::Search);
    app.handle_input_key(KeyInput::Char('E'));
    app.handle_input_key(KeyInput::Char('R'));
    app.handle_input_key(KeyInput::Char('R'));
    let act = app.handle_input_key(KeyInput::Enter);
    assert!(matches!(act, Action::Nothing));
    assert_eq!(app.logs.logs.len(), 1);
    assert_eq!(app.logs.logs[0].0, "t1");
    assert_eq!(app.focus.panel, Focus::Default);
}

#[test]
fn session_load_prompt_cannot_be_escaped() {
    let mut app = App::new();
    app.force_session_prompt();
    assert_eq!(app.focus.panel, Focus::SessionLoad);
    assert_eq!(app.focus.input_mode, InputMode::Input);
    app.handle_input_key(KeyInput::Esc);
    assert_eq!(app.focus.panel, Focus::SessionLoad);
    app.handle_input_key(KeyInput::Char('n'));
    let act = app.handle_input_key(KeyInput::Enter);
    assert!(matches!(act, Action::Nothing));
    assert!(app.session_loaded);
    assert_eq!(app.focus.panel, Focus::Default);
}

#[test]
fn session_load_yes_requests_the_file() {
    let mut app = App::new();
    app.force_session_prompt();
    app.handle_input_key(KeyInput::Char('y'));
    let act = app.handle_input_key(KeyInput::Enter);
    assert!(matches!(act, Action::LoadSession));
    assert!(!app.session_loaded);
}

#[test]
fn session_save_prompt_decides_exit() {
    let mut app = App::new();
    app.session_loaded = true;
    app.handle_normal_key(KeyInput::Char('q'));
    assert_eq!(app.focus.panel, Focus::SessionSave);
    app.handle_input_key(KeyInput::Char('Y'));
    let act = app.handle_input_key(KeyInput::Enter);
    assert!(matches!(act, Action::SaveAndExit));

    let mut app2 = App::new();
    app2.session_loaded = true;
    app2.handle_normal_key(KeyInput::Char('q'));
    app2.handle_input_key(KeyInput::Char('n'));
    let act2 = app2.handle_input_key(KeyInput::Enter);
    assert!(matches!(act2, Action::Exit));
}

#[test]
fn session_round_trip_through_store() {
    let mut app = App::new();
    app.datasets.upsert(
        "FROM T SELECT count(*) as value WHERE ok SINCE a UNTIL b LIMIT 5 TIMESERIES".to_string(),
        vec![],
        Bounds { mins: (0, 0), maxes: (0, 0) },
    );
    app.datasets.rename(
        "FROM T SELECT count(*) as value WHERE ok SINCE a UNTIL b LIMIT 5 TIMESERIES".to_string(),
        "traffic".to_string(),
    );
    let pairs = app.save_session();
    assert_eq!(pairs.len(), 1);
    assert_eq!(pairs[0].0, "traffic");
    assert_eq!(
        pairs[0].1,
        "FROM T SELECT count(*) as value WHERE ok SINCE a UNTIL b LIMIT 5 TIMESERIES"
    );

    let mut fresh = App::new();
    let to_add = fresh.load_session(pairs);
    assert!(fresh.session_loaded);
    assert_eq!(to_add.len(), 1);
    assert_eq!(
        to_add[0],
        "FROM T SELECT count(*) as value WHERE ok SINCE a UNTIL b LIMIT 5 TIMESERIES"
    );
    assert_eq!(fresh.datasets.len(), 1);
    let entry = &fresh.datasets.entries[0];
    assert_eq!(
        entry.0,
        "FROM T SELECT count(*) as value WHERE ok SINCE a UNTIL b LIMIT 5 TIMESERIES"
    );
    assert_eq!(entry.1.query_alias.as_deref(), Some("traffic"));
    assert!(!entry.1.has_data);
}

#[test]
fn unparseable_session_entries_are_skipped() {
    let mut app = App::new();
    let to_add = app.load_session(vec![
        ("bad".to_string(), "not a query".to_string()),
        (
            "good".to_string(),
            "FROM T SELECT c as value WHERE w SINCE a UNTIL b LIMIT 1 TABLE".to_string(),
        ),
    ]);
    assert!(app.session_loaded);
    assert_eq!(
        to_add,
        vec!["FROM T SELECT c as value WHERE w SINCE a UNTIL b LIMIT 1 TABLE".to_string()]
    );
    assert_eq!(app.datasets.len(), 1);
    assert_eq!(app.datasets.entries[0].1.query_alias.as_deref(), Some("good"));
    assert!(!app.datasets.entries[0].1.has_data);
}

#[test]
fn log_detail_enter_builds_correlation_query() {
    let mut app = App::new();
    app.session_loaded = true;
    app.logs.logs.push((
        "t1".to_string(),
        vec!["job finished for request (abc-123).".to_string()],
    ));
    app.logs.entry_next();
    app.logs.item_next();
    app.focus.panel = Focus::LogDetail;
    let act = app.handle_normal_key(KeyInput::Enter);
    match act {
        Action::AddQuery(q) => {
            assert_eq!(
                q,
                "SELECT * FROM Log WHERE allColumnSearch('abc-123', insensitive: true)"
            );
        },
        _ => panic!("expected a correlation query"),
    }
    assert_eq!(app.focus.panel, Focus::Default);
}

#[test]
fn log_payload_replaces_buffer_and_splits_lines() {
    let mut app = App::new();
    app.focus.loading = true;
    app.logs.logs.push(("old".to_string(), vec!["gone".to_string()]));
    app.ingest_log_payload(
        vec![
            ("t1".to_string(), "first line\nsecond line".to_string()),
            ("t2".to_string(), "only line".to_string()),
        ],
        vec![(1, 2)],
        Bounds { mins: (0, 0), maxes: (9, 9) },
    );
    assert!(!app.focus.loading);
    assert_eq!(app.logs.logs.len(), 2);
    assert_eq!(app.logs.logs[0].0, "t1");
    assert_eq!(
        app.logs.logs[0].1,
        vec!["first line".to_string(), "second line".to_string()]
    );
    assert_eq!(app.logs.logs[1].1, vec!["only line".to_string()]);
    assert!(app.logs.filters.is_empty());
    assert_eq!(app.logs.chart_data, vec![(1, 2)]);
}

#[test]
fn tabs_and_views_toggle() {
    let mut app = App::new();
    app.session_loaded = true;
    assert_eq!(app.focus.tab, Tab::Logs);
    app.handle_normal_key(KeyInput::Char('T'));
    assert_eq!(app.focus.tab, Tab::Logs);
    app.handle_normal_key(KeyInput::Char('d'));
    assert_eq!(app.focus.panel, Focus::Dashboard);
    app.handle_normal_key(KeyInput::Char('d'));
    assert_eq!(app.focus.panel, Focus::Default);
    app.handle_normal_key(KeyInput::Enter);
    assert_eq!(app.focus.panel, Focus::Log);
    app.handle_normal_key(KeyInput::Enter);
    assert_eq!(app.focus.panel, Focus::LogDetail);
    app.handle_normal_key(KeyInput::Esc);
    assert_eq!(app.focus.panel, Focus::Default);
}

#[test]
fn log_navigation_wraps() {
    let mut app = App::new();
    app.logs.logs.push(("t1".to_string(), vec!["a".to_string(), "b".to_string()]));
    app.logs.logs.push(("t2".to_string(), vec!["c".to_string()]));
    app.logs.logs.push(("t3".to_string(), vec!["d".to_string()]));
    app.next();
    assert_eq!(app.logs.selected_index, Some(0));
    assert_eq!(app.logs.selected, "t1");
    app.previous();
    assert_eq!(app.logs.selected_index, Some(2));
    app.next();
    assert_eq!(app.logs.selected_index, Some(0));
    app.focus.panel = Focus::Log;
    app.next();
    assert_eq!(app.logs.item_index, Some(0));
    app.next();
    assert_eq!(app.logs.item_index, Some(1));
    app.next();
    assert_eq!(app.logs.item_index, Some(0));
}
