use kb::access_log::{query_log, AccessLogEntry, AccessLogFilter, log_path};
use kb::changelog::{query_changelog, ChangelogEntry, ChangelogFilter, changelog_path};
use kb::session::Timestamp;

fn now() -> Timestamp {
    Timestamp { secs: 1_700_000_000, nanos: 0 }
}

fn make_access(session_id: &str, tool: &str, domain: Option<&str>) -> AccessLogEntry {
    AccessLogEntry {
        session_id: session_id.to_string(),
        timestamp: now(),
        tool: tool.to_string(),
        domain: domain.map(|s| s.to_string()),
        query: None,
        entry_id: None,
        result_count: None,
        signal: None,
    }
}

fn make_change(session_id: Option<&str>, action: &str, domain: &str) -> ChangelogEntry {
    ChangelogEntry {
        session_id: session_id.map(|s| s.to_string()),
        timestamp: now(),
        action: action.to_string(),
        domain: domain.to_string(),
        entry_id: "mx-abc123".to_string(),
        summary: Some("test record".to_string()),
        diff: None,
    }
}

fn access_log() -> Vec<AccessLogEntry> {
    vec![
        make_access("s1", "query", Some("rust")),
        make_access("s1", "search", Some("go")),
        make_access("s2", "query", Some("rust")),
    ]
}

#[test]
fn access_log_append_and_query() {
    let all = query_log(access_log(), &AccessLogFilter::default());
    assert_eq!(all.len(), 3);

    let by_session = query_log(
        access_log(),
        &AccessLogFilter { session_id: Some("s1".to_string()), ..Default::default() },
    );
    assert_eq!(by_session.len(), 2);

    let by_tool = query_log(
        access_log(),
        &AccessLogFilter { tool: Some("query".to_string()), ..Default::default() },
    );
    assert_eq!(by_tool.len(), 2);

    let by_domain = query_log(
        access_log(),
        &AccessLogFilter { domain: Some("go".to_string()), ..Default::default() },
    );
    assert_eq!(by_domain.len(), 1);
}

#[test]
fn query_empty_log() {
    let entries = query_log(Vec::new(), &AccessLogFilter::default());
    assert!(entries.is_empty());
}

fn changes() -> Vec<ChangelogEntry> {
    vec![
        make_change(Some("s1"), "record", "rust"),
        make_change(Some("s1"), "edit", "rust"),
        make_change(None, "delete", "go"),
    ]
}

#[test]
fn changelog_append_and_query() {
    let all = query_changelog(changes(), &ChangelogFilter::default());
    assert_eq!(all.len(), 3);

    let by_action = query_changelog(
        changes(),
        &ChangelogFilter { action: Some("record".to_string()), ..Default::default() },
    );
    assert_eq!(by_action.len(), 1);

    let by_domain = query_changelog(
        changes(),
        &ChangelogFilter { domain: Some("go".to_string()), ..Default::default() },
    );
    assert_eq!(by_domain.len(), 1);
}

#[test]
fn query_empty_changelog() {
    let entries = query_changelog(Vec::new(), &ChangelogFilter::default());
    assert!(entries.is_empty());
}

#[test]
fn access_query_keeps_order_and_combines_filters() {
    let res = query_log(
        access_log(),
        &AccessLogFilter {
            session_id: Some("s1".to_string()),
            domain: Some("rust".to_string()),
            tool: Some("query".to_string()),
        },
    );
    assert_eq!(res.len(), 1);
    assert_eq!(res[0].session_id, "s1");
    let by_session = query_log(
        access_log(),
        &AccessLogFilter { session_id: Some("s1".to_string()), ..Default::default() },
    );
    assert_eq!(by_session[0].tool, "query");
    assert_eq!(by_session[1].tool, "search");
}

#[test]
fn access_domain_filter_skips_entries_without_domain() {
    let entries = vec![make_access("s1", "prime", None), make_access("s1", "query", Some("go"))];
    let res = query_log(entries, &AccessLogFilter { domain: Some("go".to_string()), ..Default::default() });
    assert_eq!(res.len(), 1);
    assert_eq!(res[0].tool, "query");
}

#[test]
fn changelog_session_filter_skips_entries_without_session() {
    let res = query_changelog(
        changes(),
        &ChangelogFilter { session_id: Some("s1".to_string()), ..Default::default() },
    );
    assert_eq!(res.len(), 2);
    assert_eq!(res[1].action, "edit");
}

#[test]
fn query_twice_is_same_as_once() {
    let f = AccessLogFilter { tool: Some("query".to_string()), ..Default::default() };
    let once = query_log(access_log(), &f);
    let twice = query_log(query_log(access_log(), &f), &f);
    assert_eq!(once.len(), twice.len());
}

#[test]
fn log_files_live_in_kb_dir() {
    assert_eq!(log_path("/work"), "/work/.kb/access.jsonl");
    assert_eq!(changelog_path("/work/"), "/work/.kb/changelog.jsonl");
}
