use kb::session::Timestamp;
use kb::steps::{prepare, select_type, RecordStep, ToolFailure};
use kb::tools::{KbDeleteTool, KbEditTool, KbPrimeTool, KbQueryTool, KbRecordTool, KbSearchTool};
use kb::types::{Classification, ExpertiseRecord, KbConfig, KbError};

fn config_with(domains: &[&str]) -> KbConfig {
    let mut cfg = KbConfig::default();
    for d in domains {
        cfg.domains.push(d.to_string());
    }
    cfg
}

fn convention(id: Option<&str>, content: &str) -> ExpertiseRecord {
    ExpertiseRecord::Convention {
        id: id.map(|s| s.to_string()),
        content: content.to_string(),
        classification: Classification::Tactical,
        recorded_at: "T".to_string(),
        evidence: None,
        tags: None,
        relates_to: None,
        supersedes: None,
    }
}

fn guide(id: Option<&str>, name: &str) -> ExpertiseRecord {
    ExpertiseRecord::Guide {
        id: id.map(|s| s.to_string()),
        name: name.to_string(),
        description: "steps".to_string(),
        classification: Classification::Tactical,
        recorded_at: "T".to_string(),
        evidence: None,
        tags: None,
        relates_to: None,
        supersedes: None,
    }
}

fn record_tool(domain: &str, kind: &str) -> KbRecordTool {
    KbRecordTool {
        domain: domain.to_string(),
        record_type: kind.to_string(),
        description: "d".to_string(),
        name: None,
        title: None,
        rationale: None,
        tags: None,
    }
}

#[test]
fn prepare_checks_in_order() {
    let cfg = config_with(&["test", "bad.name"]);
    assert!(matches!(prepare(false, &cfg, "zzz"), Err(KbError::NotInitialized)));
    assert!(matches!(prepare(true, &cfg, "zzz"), Err(KbError::DomainNotFound { .. })));
    assert!(matches!(prepare(true, &cfg, "bad.name"), Err(KbError::InvalidDomainName(_))));
    assert!(prepare(true, &cfg, "test").is_ok());
}

#[test]
fn record_plan_order() {
    let cfg = config_with(&["test", "bad.name"]);
    assert!(matches!(record_tool("test", "convention").plan(false, &cfg, "T".to_string()), Err(ToolFailure::Kb(KbError::NotInitialized))));
    assert!(matches!(record_tool("x", "pattern").plan(true, &cfg, "T".to_string()), Err(ToolFailure::Kb(KbError::DomainNotFound { .. }))));
    match record_tool("bad.name", "pattern").plan(true, &cfg, "T".to_string()) {
        Err(ToolFailure::Refused(m)) => assert_eq!(m, "Pattern requires 'name'"),
        _ => panic!("expected the field check first"),
    }
    assert!(matches!(record_tool("bad.name", "convention").plan(true, &cfg, "T".to_string()), Err(ToolFailure::Kb(KbError::InvalidDomainName(_)))));
    assert!(matches!(record_tool("test", "convention").plan(true, &cfg, "T".to_string()), Ok(ExpertiseRecord::Convention { .. })));
}

#[test]
fn record_store_steps() {
    let tool = record_tool("test", "guide");
    let existing = || vec![convention(None, "a"), guide(Some("mx-1"), "old")];
    match tool.store(existing(), guide(None, "new"), Some(1)) {
        RecordStep::Write(v) => {
            assert_eq!(v.len(), 2);
            assert!(matches!(&v[1], ExpertiseRecord::Guide { name, .. } if name == "new"));
            assert!(matches!(&v[0], ExpertiseRecord::Convention { content, .. } if content == "a"));
        }
        _ => panic!("expected a write"),
    }
    assert!(matches!(tool.store(existing(), convention(None, "a"), Some(0)), RecordStep::Keep));
    assert!(matches!(tool.store(existing(), convention(None, "b"), None), RecordStep::Append(ExpertiseRecord::Convention { .. })));
}

#[test]
fn edit_step_updates_one_record() {
    let tool = KbEditTool {
        domain: "test".to_string(),
        entry_id: "mx-1".to_string(),
        updates: vec![("name".to_string(), "renamed".to_string())],
    };
    let records = vec![convention(None, "a"), guide(Some("mx-1"), "old")];
    let after = tool.edit(records, 1);
    assert!(matches!(&after[1], ExpertiseRecord::Guide { name, .. } if name == "renamed"));
    assert!(matches!(&after[0], ExpertiseRecord::Convention { content, .. } if content == "a"));
    let (access, change) = tool.log_entries(Some("s"), Timestamp { secs: 0, nanos: 0 });
    assert_eq!(access.unwrap().tool, "edit");
    let diff = change.diff.unwrap();
    assert_eq!(diff[0].field, "name");
    assert_eq!(diff[0].old, "...");
    assert!(change.summary.is_none());
}

#[test]
fn delete_step() {
    let tool = KbDeleteTool { domain: "test".to_string(), entry_id: "mx".to_string() };
    let records = vec![convention(None, "a"), guide(Some("mx-1"), "g")];
    let step = tool.delete(records, 1, Some("s"), Timestamp { secs: 0, nanos: 0 }, "g");
    assert_eq!(step.records.len(), 1);
    assert_eq!(step.change.entry_id, "mx-1");
    assert_eq!(step.access.unwrap().entry_id.as_deref(), Some("mx-1"));
}

#[test]
fn prime_and_search_plans() {
    let cfg = config_with(&["test", "infra"]);
    let prime = KbPrimeTool { label: None, domains: None };
    assert!(matches!(prime.plan(false, &cfg), Err(KbError::NotInitialized)));
    assert_eq!(prime.plan(true, &cfg).ok().unwrap().len(), 2);
    let e = prime.access_entry("kb-1", Timestamp { secs: 0, nanos: 0 }, &vec![2, 3]);
    assert_eq!(e.tool, "prime");
    assert_eq!(e.result_count, Some(5));

    let search = KbSearchTool { query: "snake_case".to_string(), domain: None, record_type: Some("bogus".to_string()) };
    assert_eq!(search.plan(true, &cfg).ok().unwrap().len(), 2);
    assert_eq!(search.records_to_search(vec![convention(None, "a")]).err().unwrap(), "Unknown record type: bogus");
    let e = search.access_entry(Some("s"), Timestamp { secs: 0, nanos: 0 }, &vec![1, 0]).unwrap();
    assert_eq!(e.query.as_deref(), Some("snake_case"));
    assert_eq!(e.result_count, Some(1));
    assert!(search.access_entry(None, Timestamp { secs: 0, nanos: 0 }, &vec![]).is_none());

    let query = KbQueryTool { domain: "test".to_string(), record_type: Some("guide".to_string()) };
    let kept = query.records_to_return(vec![convention(None, "a"), guide(None, "g")]).ok().unwrap();
    assert_eq!(kept.len(), 1);
    assert_eq!(select_type(&None, vec![convention(None, "a")]).ok().unwrap().len(), 1);
}
