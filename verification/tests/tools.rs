use kb::tools::Placement;
use kb::commands::{access_line, run, session_list_line, session_status, SessionAction, SessionCommands};
use kb::handler::{CallOutcome, SessionTracker, ToolKind};
use kb::session::{new_session, Timestamp};
use kb::access_log::AccessLogEntry;
use kb::tools::{
    access_entry, parse_record_type, KbEditTool, KbFeedbackTool, KbOracleTool, KbPrimeTool,
    KbQueryTool, KbRecordTool, KbSearchTool, KbSessionEndTool, KbStatusTool,
};
use kb::types::{Classification, ExpertiseRecord, KbConfig, KbError, RecordType};

fn record_tool(kind: &str) -> KbRecordTool {
    KbRecordTool {
        domain: "test".to_string(),
        record_type: kind.to_string(),
        description: "Always use snake_case for functions".to_string(),
        name: None,
        title: None,
        rationale: None,
        tags: None,
    }
}

fn config_with(domains: &[&str]) -> KbConfig {
    let mut cfg = KbConfig::default();
    for d in domains {
        cfg.domains.push(d.to_string());
    }
    cfg
}

#[test]
fn record_types_parse() {
    assert_eq!(parse_record_type("convention"), Some(RecordType::Convention));
    assert_eq!(parse_record_type("guide"), Some(RecordType::Guide));
    assert_eq!(parse_record_type("Guide"), None);
    let q = KbQueryTool { domain: "d".to_string(), record_type: Some("bogus".to_string()) };
    assert_eq!(q.type_filter().err().unwrap(), "Unknown record type: bogus");
    let q = KbQueryTool { domain: "d".to_string(), record_type: None };
    assert_eq!(q.type_filter().ok().unwrap(), None);
}

#[test]
fn record_tool_builds_records() {
    match record_tool("convention").build_record("T".to_string()) {
        Ok(ExpertiseRecord::Convention { id, content, classification, recorded_at, .. }) => {
            assert!(id.is_none());
            assert_eq!(content, "Always use snake_case for functions");
            assert_eq!(classification, Classification::Tactical);
            assert_eq!(recorded_at, "T");
        }
        _ => panic!("expected a convention"),
    }
    assert_eq!(record_tool("pattern").build_record("T".to_string()).err().unwrap(), "Pattern requires 'name'");
    match record_tool("failure").build_record("T".to_string()) {
        Ok(ExpertiseRecord::Failure { resolution, .. }) => assert_eq!(resolution, "unresolved"),
        _ => panic!("expected a failure"),
    }
    let mut d = record_tool("decision");
    d.title = Some("SQLite".to_string());
    assert_eq!(d.build_record("T".to_string()).err().unwrap(), "Decision requires 'rationale'");
    d.rationale = Some("local only".to_string());
    assert!(matches!(d.build_record("T".to_string()), Ok(ExpertiseRecord::Decision { .. })));
    assert_eq!(record_tool("nope").build_record("T".to_string()).err().unwrap(), "Unknown record type: nope");
}

#[test]
fn edit_updates_known_fields_only() {
    let mut record = ExpertiseRecord::Pattern {
        id: Some("mx-1".to_string()),
        name: "error-handling".to_string(),
        description: "Use Result<T, E>".to_string(),
        files: None,
        classification: Classification::Tactical,
        recorded_at: "T".to_string(),
        evidence: None,
        tags: None,
        relates_to: None,
        supersedes: None,
    };
    let edit = KbEditTool {
        domain: "test".to_string(),
        entry_id: "mx-1".to_string(),
        updates: vec![
            ("description".to_string(), "Use anyhow::Result".to_string()),
            ("title".to_string(), "ignored".to_string()),
        ],
    };
    edit.apply_updates(&mut record);
    match &record {
        ExpertiseRecord::Pattern { id, name, description, .. } => {
            assert_eq!(id.as_deref(), Some("mx-1"));
            assert_eq!(name, "error-handling");
            assert_eq!(description, "Use anyhow::Result");
        }
        _ => panic!("kind changed"),
    }
    let diff = edit.diff();
    assert_eq!(diff.len(), 2);
    assert_eq!(diff[0].field, "description");
    assert_eq!(diff[0].old, "...");
    assert_eq!(diff[0].new, "Use anyhow::Result");
}

#[test]
fn prime_and_search_domains() {
    let cfg = config_with(&["test", "infra"]);
    let all = KbPrimeTool { label: None, domains: None }.target_domains(&cfg).ok().unwrap();
    assert_eq!(all, vec!["test".to_string(), "infra".to_string()]);
    let some = KbPrimeTool { label: None, domains: Some(vec!["infra".to_string()]) };
    assert_eq!(some.target_domains(&cfg).ok().unwrap(), vec!["infra".to_string()]);
    let bad = KbPrimeTool { label: None, domains: Some(vec!["infra".to_string(), "x".to_string(), "y".to_string()]) };
    match bad.target_domains(&cfg) {
        Err(KbError::DomainNotFound { domain, available }) => {
            assert_eq!(domain, "x");
            assert_eq!(available, "test, infra");
        }
        _ => panic!("expected domain not found"),
    }
    let search = KbSearchTool { query: "q".to_string(), domain: Some("test".to_string()), record_type: None };
    assert_eq!(search.target_domains(&cfg).ok().unwrap(), vec!["test".to_string()]);
}

#[test]
fn messages() {
    let fb = KbFeedbackTool { entry_id: "mx-1".to_string(), signal: "helpful".to_string(), domain: Some("test".to_string()) };
    assert_eq!(fb.message(), "Feedback 'helpful' recorded for entry mx-1.");
    assert_eq!(KbOracleTool { query: "How do we handle auth?".to_string(), domain: None }.message(), "Knowledge gap recorded.");
    assert_eq!(KbSessionEndTool {}.message("kb-abc"), "Session kb-abc ended.");
    let t = Timestamp { secs: 1, nanos: 2 };
    assert!(fb.access_entry(None, t).is_none());
    let e = fb.access_entry(Some("s"), t).unwrap();
    assert_eq!(e.tool, "feedback");
    assert_eq!(e.signal.as_deref(), Some("helpful"));
}

#[test]
fn access_entries_need_a_session() {
    let t = Timestamp { secs: 1, nanos: 0 };
    assert!(access_entry(None, t, "query", Some("d"), None, None, Some(3)).is_none());
    let e = access_entry(Some("kb-1"), t, "query", Some("d"), Some("rt"), None, Some(3)).unwrap();
    assert_eq!(e.session_id, "kb-1");
    assert_eq!(e.domain.as_deref(), Some("d"));
    assert_eq!(e.query.as_deref(), Some("rt"));
    assert_eq!(e.result_count, Some(3));
    assert!(e.signal.is_none());
}

#[test]
fn status_last_updated_is_latest() {
    let mk = |at: &str| ExpertiseRecord::Convention {
        id: None,
        content: "c".to_string(),
        classification: Classification::Tactical,
        recorded_at: at.to_string(),
        evidence: None,
        tags: None,
        relates_to: None,
        supersedes: None,
    };
    let records = vec![mk("2024-01-02"), mk("2024-03-01"), mk("2024-02-01")];
    assert_eq!(KbStatusTool {}.last_updated(&records).as_deref(), Some("2024-03-01"));
    assert_eq!(KbStatusTool {}.last_updated(&Vec::new()), None);
}

#[test]
fn tools_list_returns_13_tools() {
    let all = ToolKind::all();
    assert_eq!(all.len(), 13);
    for name in ["kb_prime", "kb_session_resume", "kb_session_end", "kb_query", "kb_query_all",
        "kb_search", "kb_record", "kb_edit", "kb_delete", "kb_status", "kb_oracle", "kb_feedback", "kb_check"] {
        assert!(ToolKind::from_name(name).is_some(), "missing {name}");
    }
    assert!(ToolKind::from_name("kb_nothing").is_none());
}

#[test]
fn session_end_without_prime_errors() {
    let mut tracker = SessionTracker::new();
    assert_eq!(tracker.session_for(ToolKind::SessionEnd).err().unwrap(), "No active session");
    assert_eq!(tracker.session_for(ToolKind::Query).ok().unwrap(), None);
    tracker.after_call(CallOutcome::Entered("kb-123456".to_string()));
    assert_eq!(tracker.session_for(ToolKind::SessionEnd).ok().unwrap().as_deref(), Some("kb-123456"));
    tracker.after_call(CallOutcome::Failed);
    assert_eq!(tracker.session_for(ToolKind::Query).ok().unwrap().as_deref(), Some("kb-123456"));
    tracker.after_call(CallOutcome::Ended);
    assert!(tracker.session_for(ToolKind::SessionEnd).is_err());
}

#[test]
fn session_command_lines() {
    assert!(matches!(run(false, &SessionCommands::List), Err(KbError::NotInitialized)));
    assert!(matches!(run(true, &SessionCommands::List), Ok(SessionAction::List)));
    match run(true, &SessionCommands::Show("kb-1".to_string())) {
        Ok(SessionAction::Show(id)) => assert_eq!(id, "kb-1"),
        _ => panic!("expected show"),
    }
    let mut s = new_session("kb-1".to_string(), None, Timestamp { secs: 0, nanos: 0 });
    assert_eq!(session_status(&s), "active");
    assert_eq!(session_list_line(&s, "2024-01-01 00:00:00"), "kb-1 [active] (no label) started=2024-01-01 00:00:00");
    s.ended_at = Some(Timestamp { secs: 1, nanos: 0 });
    assert_eq!(session_status(&s), "ended");
    let e = AccessLogEntry {
        session_id: "kb-1".to_string(),
        timestamp: Timestamp { secs: 0, nanos: 0 },
        tool: "query".to_string(),
        domain: Some("rust".to_string()),
        query: None,
        entry_id: None,
        result_count: None,
        signal: None,
    };
    assert_eq!(access_line(&e, "12:00:00"), "  [12:00:00] tool=query domain=rust query=-");
}

fn named_pattern(id: Option<&str>) -> ExpertiseRecord {
    ExpertiseRecord::Pattern {
        id: id.map(|s| s.to_string()),
        name: "n".to_string(),
        description: "d".to_string(),
        files: None,
        classification: Classification::Tactical,
        recorded_at: "T".to_string(),
        evidence: None,
        tags: None,
        relates_to: None,
        supersedes: None,
    }
}

fn plain_convention(content: &str) -> ExpertiseRecord {
    ExpertiseRecord::Convention {
        id: None,
        content: content.to_string(),
        classification: Classification::Tactical,
        recorded_at: "T".to_string(),
        evidence: None,
        tags: None,
        relates_to: None,
        supersedes: None,
    }
}

#[test]
fn delete_removes_one_record_and_logs_it() {
    let mut records = vec![plain_convention("a"), named_pattern(Some("mx-2")), plain_convention("c")];
    let removed = kb::tools::delete_at(&mut records, 1);
    assert_eq!(records.len(), 2);
    assert!(matches!(&records[1], ExpertiseRecord::Convention { content, .. } if content == "c"));
    let tool = kb::tools::KbDeleteTool { domain: "test".to_string(), entry_id: "mx-2".to_string() };
    let t = Timestamp { secs: 3, nanos: 0 };
    let (access, change) = tool.log_entries(Some("kb-1"), t, &removed, "n");
    let access = access.unwrap();
    assert_eq!(access.tool, "delete");
    assert_eq!(access.entry_id.as_deref(), Some("mx-2"));
    assert_eq!(access.domain.as_deref(), Some("test"));
    assert_eq!(change.action, "delete");
    assert_eq!(change.entry_id, "mx-2");
    assert_eq!(change.summary.as_deref(), Some("n"));
    assert_eq!(change.session_id.as_deref(), Some("kb-1"));
    let (none, change) = tool.log_entries(None, t, &plain_convention("x"), "x");
    assert!(none.is_none());
    assert_eq!(change.entry_id, "unknown");
    assert!(change.session_id.is_none());
}

#[test]
fn record_placement_and_logs() {
    assert!(matches!(KbRecordTool::placement(&named_pattern(None), Some(4)), Placement::Replace(4)));
    assert!(matches!(KbRecordTool::placement(&plain_convention("c"), Some(4)), Placement::Keep(4)));
    assert!(matches!(KbRecordTool::placement(&plain_convention("c"), None), Placement::Append));
    let tool = record_tool("convention");
    let (access, change) = tool.log_entries(Some("s"), Timestamp { secs: 0, nanos: 0 }, &named_pattern(Some("mx-9")));
    assert_eq!(access.unwrap().tool, "record");
    assert_eq!(change.entry_id, "mx-9");
    assert_eq!(change.summary.as_deref(), Some("Always use snake_case for functions"));
}

#[test]
fn type_filter_and_totals() {
    let records = vec![plain_convention("a"), named_pattern(None), plain_convention("b")];
    let kept = kb::tools::records_of_type(records, RecordType::Convention);
    assert_eq!(kept.len(), 2);
    assert!(matches!(&kept[1], ExpertiseRecord::Convention { content, .. } if content == "b"));
    assert_eq!(kb::tools::total_count(&vec![2, 0, 5]), 7);
    assert_eq!(kb::tools::total_count(&Vec::new()), 0);
}
