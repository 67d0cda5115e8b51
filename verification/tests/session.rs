use kb::session::{
    end_session, generate_session_id, get_session, list_sessions, new_session, rand_bytes,
    resume_session, session_path, sessions_dir, SessionReadFailure, Timestamp,
};
use kb::types::KbError;

fn at(secs: i64) -> Timestamp {
    Timestamp { secs, nanos: 0 }
}

#[test]
fn start_and_get_session() {
    let id = generate_session_id(1_700_000_000_123_456_789, rand_bytes(4242, 99));
    let session = new_session(id, Some("test label"), at(1_700_000_000));
    assert!(session.id.starts_with("kb-"));
    assert_eq!(session.label.as_deref(), Some("test label"));
    assert!(session.ended_at.is_none());

    let id_again = session.id.clone();
    let loaded = match get_session(&id_again, Ok(session)) {
        Ok(s) => s,
        Err(_) => panic!("session not loaded"),
    };
    assert_eq!(loaded.id, id_again);
}

#[test]
fn resume_and_end_session() {
    let id = generate_session_id(5, 6);
    let session = new_session(id.clone(), None, at(10));

    let resumed = match resume_session(&id, session) {
        Ok(s) => s,
        Err(_) => panic!("resume failed"),
    };
    assert_eq!(resumed.id, id);

    let ended = match end_session(&id, resumed, at(20)) {
        Ok(s) => s,
        Err(_) => panic!("end failed"),
    };
    assert_eq!(ended.ended_at, Some(at(20)));

    let copy = new_session(ended.id.clone(), None, ended.started_at);
    let mut ended_copy = copy;
    ended_copy.ended_at = ended.ended_at;
    // Can't resume ended session
    assert!(resume_session(&id, ended).is_err());
    // Can't end twice
    match end_session(&id, ended_copy, at(30)) {
        Err(KbError::ValidationError(m)) => assert_eq!(m, format!("Session \"{id}\" has already ended")),
        _ => panic!("expected a validation error"),
    }
}

#[test]
fn list_sessions_returns_all() {
    let first = new_session("kb-000001".to_string(), Some("first"), at(100));
    let second = new_session("kb-000002".to_string(), Some("second"), at(200));
    let sessions = list_sessions(vec![first, second]);
    assert_eq!(sessions.len(), 2);
}

#[test]
fn list_sessions_newest_first_and_stable() {
    let a = new_session("a".to_string(), None, at(100));
    let b = new_session("b".to_string(), None, at(300));
    let c = new_session("c".to_string(), None, at(200));
    let d = new_session("d".to_string(), None, at(300));
    let e = new_session("e".to_string(), None, Timestamp { secs: 200, nanos: 5 });
    let ids: Vec<String> = list_sessions(vec![a, b, c, d, e]).into_iter().map(|s| s.id).collect();
    assert_eq!(ids, vec!["b", "d", "e", "c", "a"]);
}

#[test]
fn get_nonexistent_session_errors() {
    assert!(get_session("kb-nonexistent", Err(SessionReadFailure::Missing)).is_err());
    match get_session("kb-nonexistent", Err(SessionReadFailure::Missing)) {
        Err(KbError::RecordNotFound(id)) => assert_eq!(id, "kb-nonexistent"),
        _ => panic!("expected record not found"),
    }
}

#[test]
fn session_id_shape() {
    let id = generate_session_id(0, 0);
    assert_eq!(id.len(), 9);
    assert!(id.starts_with("kb-"));
    assert!(id[3..].chars().all(|c| c.is_ascii_hexdigit() && !c.is_ascii_uppercase()));
    // The digest of sixteen zero bytes starts with 37 47 08.
    assert_eq!(id, "kb-374708");
    assert_ne!(generate_session_id(0, 1), id);
}

#[test]
fn rand_bytes_wraps() {
    assert_eq!(rand_bytes(0, 7), 7);
    assert_eq!(rand_bytes(1, 0), 6364136223846793005);
    assert_eq!(rand_bytes(3, 1), 6364136223846793005u64.wrapping_mul(3).wrapping_add(1));
}

#[test]
fn session_files() {
    assert_eq!(sessions_dir("/p"), "/p/.kb/sessions");
    assert_eq!(session_path("/p", "kb-abc123"), "/p/.kb/sessions/kb-abc123.json");
}

#[test]
fn session_id_from_digest_bytes() {
    assert_eq!(kb::session::session_id_from_digest(&vec![0x37, 0x47, 0x08, 0xff]), "kb-374708");
    assert_eq!(kb::session::session_id_from_digest(&vec![0xab, 0x0c, 0xf0]), "kb-ab0cf0");
}
