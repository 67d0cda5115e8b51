use kb::config::{
    ensure_domain_exists, ensure_kb_dir, get_config_path, get_expertise_dir, get_expertise_path,
    get_kb_dir, gitattributes_contents, gitignore_contents, join_path, validate_domain_name,
    GITATTRIBUTES_LINE,
};
use kb::types::{KbConfig, KbError};

#[test]
fn valid_domain_names() {
    assert!(validate_domain_name("rust").is_ok());
    assert!(validate_domain_name("my-domain").is_ok());
    assert!(validate_domain_name("domain_2").is_ok());
    assert!(validate_domain_name("A123").is_ok());
}

#[test]
fn invalid_domain_names() {
    assert!(validate_domain_name("").is_err());
    assert!(validate_domain_name("-starts-with-dash").is_err());
    assert!(validate_domain_name("has spaces").is_err());
    assert!(validate_domain_name("has.dots").is_err());
}

#[test]
fn invalid_domain_name_error_names_the_domain() {
    match validate_domain_name("bad/name") {
        Err(KbError::InvalidDomainName(d)) => assert_eq!(d, "bad/name"),
        _ => panic!("expected an invalid domain name"),
    }
    assert!(validate_domain_name("trailing\n").is_err());
}

#[test]
fn layout_paths() {
    assert_eq!(get_kb_dir("/home/p"), "/home/p/.kb");
    assert_eq!(get_config_path("/home/p"), "/home/p/.kb/kb.config.yaml");
    assert_eq!(get_expertise_dir("/home/p/"), "/home/p/.kb/expertise");
    assert_eq!(get_expertise_path("rust", "/home/p").ok().unwrap(), "/home/p/.kb/expertise/rust.jsonl");
    assert!(get_expertise_path("../etc", "/home/p").is_err());
}

#[test]
fn join_follows_posix_rules() {
    assert_eq!(join_path("a", "b"), "a/b");
    assert_eq!(join_path("a/", "b"), "a/b");
    assert_eq!(join_path("", "b"), "b");
    assert_eq!(join_path("a", "/b"), "/b");
}

#[test]
fn kb_dir_must_exist() {
    assert!(ensure_kb_dir(true).is_ok());
    assert!(matches!(ensure_kb_dir(false), Err(KbError::NotInitialized)));
}

#[test]
fn default_config_is_version_one_without_domains() {
    let c = KbConfig::default();
    assert_eq!(c.version, "1");
    assert!(c.domains.is_empty());
}

#[test]
fn domain_must_be_configured() {
    let mut cfg = KbConfig::default();
    match ensure_domain_exists(&cfg, "rust") {
        Err(KbError::DomainNotFound { domain, available }) => {
            assert_eq!(domain, "rust");
            assert_eq!(available, "(none)");
        }
        _ => panic!("expected domain not found"),
    }
    cfg.domains.push("go".to_string());
    cfg.domains.push("api".to_string());
    assert!(ensure_domain_exists(&cfg, "api").is_ok());
    match ensure_domain_exists(&cfg, "rust") {
        Err(KbError::DomainNotFound { available, .. }) => assert_eq!(available, "go, api"),
        _ => panic!("expected domain not found"),
    }
}

#[test]
fn gitattributes_is_written_once() {
    let first = gitattributes_contents("").unwrap();
    assert_eq!(first, format!("{GITATTRIBUTES_LINE}\n"));
    assert!(gitattributes_contents(&first).is_none());
    let appended = gitattributes_contents("*.png binary").unwrap();
    assert_eq!(appended, format!("*.png binary\n{GITATTRIBUTES_LINE}\n"));
    assert!(gitattributes_contents(&appended).is_none());
}

#[test]
fn gitignore_adds_only_missing_entries() {
    let first = gitignore_contents("target/").unwrap();
    assert_eq!(first, "target/\n.kb/sessions/\n.kb/access.jsonl\n.kb/changelog.jsonl\n");
    assert!(gitignore_contents(&first).is_none());
    let partial = gitignore_contents(".kb/sessions/\n").unwrap();
    assert_eq!(partial, ".kb/sessions/\n.kb/access.jsonl\n.kb/changelog.jsonl\n");
}

#[test]
fn domain_name_verdicts() {
    assert!(kb::config::domain_name_verdict(Some(true), "rust").is_ok());
    assert!(matches!(kb::config::domain_name_verdict(Some(false), "a b"), Err(KbError::InvalidDomainName(d)) if d == "a b"));
    assert!(kb::config::domain_name_verdict(None, "x").is_err());
}

#[test]
fn config_written_only_when_missing() {
    let c = kb::config::initial_config(false).unwrap();
    assert_eq!(c.version, "1");
    assert!(kb::config::initial_config(true).is_none());
}

#[test]
fn init_creates_structure() {
    let cwd = "/tmp/project";
    assert_eq!(get_kb_dir(cwd), "/tmp/project/.kb");
    assert_eq!(get_config_path(cwd), "/tmp/project/.kb/kb.config.yaml");
    assert_eq!(get_expertise_dir(cwd), "/tmp/project/.kb/expertise");
    assert!(gitattributes_contents("").is_some());

    let config = kb::config::initial_config(false).unwrap();
    assert_eq!(config.version, "1");
}

#[test]
fn init_preserves_existing_config() {
    let mut config = kb::config::initial_config(false).unwrap();
    config.domains.push("test".to_string());
    // Re-init finds the configuration in place and writes none.
    assert!(kb::config::initial_config(true).is_none());
    assert_eq!(config.domains, vec!["test"]);
}
