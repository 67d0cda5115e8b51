use kb::check::{
    try_check_references, check_references, extract_paths, record_path_refs, record_summary, record_text, DomainRecords,
};
use kb::types::{Classification, Evidence, ExpertiseRecord, KbConfig, KbError};

fn convention(id: Option<&str>, content: &str) -> ExpertiseRecord {
    ExpertiseRecord::Convention {
        id: id.map(|s| s.to_string()),
        content: content.to_string(),
        classification: Classification::Tactical,
        recorded_at: "2024-01-01T00:00:00.000Z".to_string(),
        evidence: None,
        tags: None,
        relates_to: None,
        supersedes: None,
    }
}

fn config_with(domains: &[&str]) -> KbConfig {
    let mut cfg = KbConfig::default();
    for d in domains {
        cfg.domains.push(d.to_string());
    }
    cfg
}

#[test]
fn extract_paths_from_text() {
    let text = "Use the pattern in src/utils/helpers.rs and check crates/kb/Cargo.toml";
    let paths = extract_paths(text);
    assert!(paths.contains(&"src/utils/helpers.rs".to_string()));
    assert!(paths.contains(&"crates/kb/Cargo.toml".to_string()));
}

#[test]
fn extract_paths_skips_non_paths() {
    let text = "version 1.0.0 and some word.thing without slashes";
    let paths = extract_paths(text);
    assert!(paths.is_empty());
}

#[test]
fn extract_glob_patterns() {
    let text = "matches *.ts files and src/**/*.rs patterns";
    let paths = extract_paths(text);
    assert!(paths.contains(&"*.ts".to_string()));
    assert!(paths.contains(&"src/**/*.rs".to_string()));
}

#[test]
fn extract_paths_skips_urls() {
    let paths = extract_paths("see https://example.com/a/b.html and docs/guide.md");
    assert_eq!(paths, vec!["docs/guide.md".to_string()]);
}

#[test]
fn check_references_with_broken_paths() {
    let cfg = config_with(&["test"]);
    let record = convention(None, "Always check src/nonexistent/file.rs before deploying");
    let files = vec![DomainRecords { domain: "test".to_string(), records: Ok(vec![record]) }];
    let results = match check_references(true, &cfg, Some("test"), &files, &Vec::new()) {
        Ok(r) => r,
        Err(_) => panic!("check failed"),
    };
    assert_eq!(results.len(), 1);
    assert!(results[0].broken_refs.contains(&"src/nonexistent/file.rs".to_string()));
    assert_eq!(results[0].entry_id, "(no id)");
    assert_eq!(results[0].domain, "test");
}

#[test]
fn existing_paths_and_globs_are_not_broken() {
    let cfg = config_with(&["a", "b"]);
    let r1 = convention(Some("mx-1"), "see src/lib.rs and src/**/*.rs and src/gone.rs");
    let r2 = convention(Some("mx-2"), "all fine in src/lib.rs");
    let files = vec![
        DomainRecords { domain: "a".to_string(), records: Ok(vec![r1]) },
        DomainRecords { domain: "b".to_string(), records: Ok(vec![r2]) },
    ];
    let existing = vec!["src/lib.rs".to_string()];
    let results = match check_references(true, &cfg, None, &files, &existing) {
        Ok(r) => r,
        Err(_) => panic!("check failed"),
    };
    assert_eq!(results.len(), 1);
    assert_eq!(results[0].entry_id, "mx-1");
    assert_eq!(results[0].broken_refs, vec!["src/gone.rs".to_string()]);
}

#[test]
fn check_errors() {
    let cfg = config_with(&["a", "bad.name"]);
    let files: Vec<DomainRecords> = Vec::new();
    assert!(matches!(
        check_references(true, &cfg, Some("zzz"), &files, &Vec::new()),
        Err(KbError::DomainNotFound { .. })
    ));
    assert!(matches!(
        check_references(true, &cfg, None, &files, &Vec::new()),
        Err(KbError::InvalidDomainName(_))
    ));
    let unreadable = vec![DomainRecords { domain: "a".to_string(), records: Err(KbError::Io("denied".to_string())) }];
    assert!(matches!(
        check_references(true, &cfg, Some("a"), &unreadable, &Vec::new()),
        Err(KbError::Io(_))
    ));
}

#[test]
fn record_text_joins_fields_and_evidence() {
    let r = ExpertiseRecord::Pattern {
        id: None,
        name: "errors".to_string(),
        description: "use Result".to_string(),
        files: Some(vec!["src/a.rs".to_string(), "src/b.rs".to_string()]),
        classification: Classification::Foundational,
        recorded_at: "t".to_string(),
        evidence: Some(Evidence { commit: None, issue: None, file: Some("docs/x.md".to_string()) }),
        tags: None,
        relates_to: None,
        supersedes: None,
    };
    assert_eq!(record_text(&r), "errors use Result src/a.rs src/b.rs docs/x.md");
    // Matches do not overlap: the space that ends one reference cannot start the next.
    assert_eq!(record_path_refs(&r), vec!["src/a.rs".to_string(), "docs/x.md".to_string()]);
}

#[test]
fn summary_truncates_long_text() {
    let short = convention(None, "short text");
    assert_eq!(record_summary(&short), "short text");
    let long_text = "x".repeat(100);
    let long = convention(None, &long_text);
    let s = record_summary(&long);
    assert_eq!(s, format!("{}...", "x".repeat(77)));
    assert_eq!(s.len(), 80);
    let exactly = convention(None, &"y".repeat(80));
    assert_eq!(record_summary(&exactly), "y".repeat(80));
}

#[test]
fn summaries_that_cannot_be_cut_are_refused() {
    let cfg = config_with(&["d"]);
    let text = format!("{} see src/nowhere.rs", "\u{e9}".repeat(50));
    let files = vec![DomainRecords { domain: "d".to_string(), records: Ok(vec![convention(None, &text)]) }];
    assert!(try_check_references(true, &cfg, None, &files, &Vec::new()).is_none());
    let fine = vec!["src/nowhere.rs".to_string()];
    match try_check_references(true, &cfg, None, &files, &fine) {
        Some(Ok(results)) => assert!(results.is_empty()),
        _ => panic!("expected an empty report"),
    }
}

#[test]
fn check_without_kb_dir_is_refused() {
    let cfg = config_with(&["test"]);
    let files: Vec<DomainRecords> = Vec::new();
    assert!(matches!(check_references(false, &cfg, None, &files, &Vec::new()), Err(KbError::NotInitialized)));
    assert!(matches!(try_check_references(false, &cfg, Some("test"), &files, &Vec::new()), Some(Err(KbError::NotInitialized))));
}

#[test]
fn unlisted_domain_is_refused_before_any_summary() {
    let cfg = config_with(&["d"]);
    let text = format!("{} see src/nowhere.rs", "\u{e9}".repeat(50));
    let files = vec![DomainRecords { domain: "d".to_string(), records: Ok(vec![convention(None, &text)]) }];
    match try_check_references(true, &cfg, Some("other"), &files, &Vec::new()) {
        Some(Err(KbError::DomainNotFound { domain, available })) => {
            assert_eq!(domain, "other");
            assert_eq!(available, "d");
        }
        _ => panic!("expected domain not found"),
    }
}
