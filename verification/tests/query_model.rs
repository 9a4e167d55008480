use nrql_tui::parser::{parse_nrql, strip_all, trim_text, Clause, ParseError};
use nrql_tui::query::{NRQLQuery, QueryType, NRQL};

#[test]
fn parse_basic_timeseries() {
    let input = "FROM Transaction SELECT count(*) WHERE appName='x' SINCE 10 minutes ago UNTIL now LIMIT 100 TIMESERIES";
    let q = parse_nrql(input).unwrap();
    assert_eq!(q.from, "Transaction");
    assert_eq!(q.select, "count(*)");
    assert_eq!(q.where_clause, "appName='x'");
    assert_eq!(q.facet, "");
    assert_eq!(q.since, "10 minutes ago");
    assert_eq!(q.until, "now");
    assert_eq!(q.limit, "100");
    assert_eq!(q.mode, QueryType::Timeseries);
}

#[test]
fn render_after_parse_adds_result_binding() {
    let input = "FROM Transaction SELECT count(*) WHERE appName='x' SINCE 10 minutes ago UNTIL now LIMIT 100 TIMESERIES";
    let q = parse_nrql(input).unwrap();
    let rendered = q.to_string();
    assert_eq!(
        rendered,
        "FROM Transaction SELECT count(*) as value WHERE appName='x' SINCE 10 minutes ago UNTIL now LIMIT 100 TIMESERIES"
    );
}

#[test]
fn parse_with_facet() {
    let input = "FROM Tx SELECT average(duration) WHERE ok FACET region SINCE 1 hour ago UNTIL now LIMIT 50 TIMESERIES";
    let q = parse_nrql(input).unwrap();
    assert_eq!(q.facet, "region");
    assert_eq!(q.where_clause, "ok");
    let rendered = q.to_string();
    assert_eq!(
        rendered,
        "FROM Tx SELECT average(duration) as value WHERE ok FACET region SINCE 1 hour ago UNTIL now LIMIT 50 TIMESERIES"
    );
}

#[test]
fn parse_table_mode() {
    let input = "FROM Log SELECT message WHERE level='info' SINCE 5 minutes ago UNTIL now LIMIT 20 TABLE";
    let q = parse_nrql(input).unwrap();
    assert_eq!(q.mode, QueryType::Table);
    assert_eq!(q.limit, "20");
}

#[test]
fn parse_trims_clause_bodies() {
    let input = "FROM   Transaction    SELECT   count(*)   WHERE  ok  SINCE  1 hour ago  UNTIL  now  LIMIT  7  TIMESERIES";
    let q = parse_nrql(input).unwrap();
    assert_eq!(q.from, "Transaction");
    assert_eq!(q.select, "count(*)");
    assert_eq!(q.where_clause, "ok");
    assert_eq!(q.since, "1 hour ago");
    assert_eq!(q.until, "now");
    assert_eq!(q.limit, "7");
}

#[test]
fn missing_from_fails() {
    let r = parse_nrql("SELECT count(*) WHERE ok SINCE a UNTIL b LIMIT 1 TIMESERIES");
    assert_eq!(r.unwrap_err(), ParseError::MissingClause(Clause::From));
}

#[test]
fn missing_select_fails() {
    let r = parse_nrql("FROM Transaction WHERE ok SINCE a UNTIL b LIMIT 1 TIMESERIES");
    assert_eq!(r.unwrap_err(), ParseError::MissingClause(Clause::Select));
}

#[test]
fn missing_where_fails() {
    let r = parse_nrql("FROM Transaction SELECT count(*) SINCE a UNTIL b LIMIT 1 TIMESERIES");
    assert_eq!(r.unwrap_err(), ParseError::MissingClause(Clause::Where));
}

#[test]
fn missing_since_fails() {
    let r = parse_nrql("FROM Transaction SELECT count(*) WHERE ok UNTIL b LIMIT 1 TIMESERIES");
    assert_eq!(r.unwrap_err(), ParseError::MissingClause(Clause::Since));
}

#[test]
fn missing_until_fails() {
    let r = parse_nrql("FROM Transaction SELECT count(*) WHERE ok SINCE a LIMIT 1 TIMESERIES");
    assert_eq!(r.unwrap_err(), ParseError::MissingClause(Clause::Until));
}

#[test]
fn missing_limit_fails() {
    let r = parse_nrql("FROM Transaction SELECT count(*) WHERE ok SINCE a UNTIL b TIMESERIES");
    assert_eq!(r.unwrap_err(), ParseError::MissingClause(Clause::Limit));
}

#[test]
fn missing_mode_fails() {
    let r = parse_nrql("FROM Transaction SELECT count(*) WHERE ok SINCE a UNTIL b LIMIT 1");
    assert_eq!(r.unwrap_err(), ParseError::MissingClause(Clause::Mode));
}

#[test]
fn lowercase_keywords_are_not_recognized() {
    let r = parse_nrql("from Transaction select count(*) where ok since a until b limit 1 timeseries");
    assert_eq!(r.unwrap_err(), ParseError::MissingClause(Clause::From));
}

#[test]
fn rendered_text_reparses_after_stripping_binding() {
    let q = NRQLQuery {
        from: "Transaction".to_string(),
        select: "count(*)".to_string(),
        where_clause: "appName='x'".to_string(),
        facet: "region".to_string(),
        since: "10 minutes ago".to_string(),
        until: "now".to_string(),
        limit: "100".to_string(),
        mode: QueryType::Timeseries,
    };
    let rendered = q.to_string();
    let cleaned = strip_all(&rendered, "as value");
    let trimmed = trim_text(&cleaned);
    let back = parse_nrql(&trimmed).unwrap();
    assert_eq!(back.from, q.from);
    assert_eq!(back.select, q.select);
    assert_eq!(back.where_clause, q.where_clause);
    assert_eq!(back.facet, q.facet);
    assert_eq!(back.since, q.since);
    assert_eq!(back.until, q.until);
    assert_eq!(back.limit, q.limit);
    assert_eq!(back.mode, q.mode);
}

#[test]
fn strip_all_removes_every_occurrence() {
    assert_eq!(strip_all("a as value b as value c", "as value"), "a  b  c");
    assert_eq!(strip_all("nothing here", "as value"), "nothing here");
    assert_eq!(strip_all("", "as value"), "");
}

#[test]
fn trim_text_trims_both_ends() {
    assert_eq!(trim_text("  hello world \t"), "hello world");
    assert_eq!(trim_text("   "), "");
}

#[test]
fn to_nrql_parses_via_trait() {
    let q = "FROM T SELECT c WHERE w SINCE a UNTIL b LIMIT 3 TABLE".to_nrql().unwrap();
    assert_eq!(q.from, "T");
    assert_eq!(q.mode, QueryType::Table);
}
