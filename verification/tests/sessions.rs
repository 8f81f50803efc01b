use library_ledger::error::{Conflict, LedgerError};
use library_ledger::library::Library;
use library_ledger::records::Role;
use library_ledger::sessions::{
    authorize, login_outcome, parse_role, role_name, Access, LoginOutcome, SESSION_SECONDS,
};

#[test]
fn register_refuses_a_taken_name() {
    let mut lib = Library::new();
    assert_eq!(lib.register("alice".to_string(), "d1".to_string(), Role::Lender), Ok(1));
    assert_eq!(
        lib.register("alice".to_string(), "d2".to_string(), Role::Admin),
        Err(LedgerError::Conflict(Conflict::UsernameTaken))
    );
    assert_eq!(lib.users.len(), 1);
    assert_eq!(lib.users[0].password_digest, "d1");
    assert_eq!(lib.register("Alice".to_string(), "d3".to_string(), Role::Admin), Ok(2));
    lib.next_user_id = i64::MAX;
    assert_eq!(lib.register("zed".to_string(), "d".to_string(), Role::Admin), Err(LedgerError::Store));
}

#[test]
fn credentials_of_a_user() {
    let mut lib = Library::new();
    assert_eq!(lib.register("root".to_string(), "digest".to_string(), Role::Admin), Ok(1));
    assert_eq!(lib.credentials("root"), Some(("digest".to_string(), Role::Admin)));
    assert_eq!(lib.credentials("nobody"), None);
}

#[test]
fn login_outcomes() {
    assert_eq!(login_outcome(None, true), LoginOutcome::UnknownUser);
    assert_eq!(login_outcome(None, false), LoginOutcome::UnknownUser);
    assert_eq!(login_outcome(Some(Role::Lender), false), LoginOutcome::WrongPassword);
    assert_eq!(login_outcome(Some(Role::Lender), true), LoginOutcome::Welcome(Role::Lender));
    assert_eq!(login_outcome(Some(Role::Admin), true), LoginOutcome::Welcome(Role::Admin));
}

#[test]
fn session_resolves_until_it_expires() {
    let mut lib = Library::new();
    lib.create_session("tok".to_string(), "alice".to_string(), Role::Lender, 1_000, SESSION_SECONDS);
    assert_eq!(lib.sessions[0].expires_at, 87_400);
    assert_eq!(lib.resolve_session("tok", 1_000), Some(("alice".to_string(), Role::Lender)));
    assert_eq!(lib.resolve_session("tok", 87_400), Some(("alice".to_string(), Role::Lender)));
    assert_eq!(lib.sessions.len(), 1);
    assert_eq!(lib.resolve_session("other", 1_000), None);
    assert_eq!(lib.sessions.len(), 1);
}

#[test]
fn expired_session_resolves_to_nothing_and_is_deleted() {
    let mut lib = Library::new();
    lib.create_session("tok".to_string(), "alice".to_string(), Role::Lender, 1_000, 10);
    lib.create_session("tok2".to_string(), "bob".to_string(), Role::Admin, 1_000, 100);
    assert_eq!(lib.resolve_session("tok", 1_011), None);
    assert_eq!(lib.sessions.len(), 1);
    assert_eq!(lib.find_session("tok"), None);
    assert_eq!(lib.resolve_session("tok", 0), None);
    assert_eq!(lib.resolve_session("tok2", 1_011), Some(("bob".to_string(), Role::Admin)));
}

#[test]
fn destroy_is_idempotent() {
    let mut lib = Library::new();
    lib.create_session("tok".to_string(), "alice".to_string(), Role::Lender, 0, 10);
    lib.destroy_session("tok");
    assert!(lib.sessions.is_empty());
    lib.destroy_session("tok");
    assert!(lib.sessions.is_empty());
}

#[test]
fn same_token_replaces_the_session() {
    let mut lib = Library::new();
    lib.create_session("tok".to_string(), "alice".to_string(), Role::Lender, 0, 10);
    lib.create_session("tok".to_string(), "bob".to_string(), Role::Admin, 5, 10);
    assert_eq!(lib.sessions.len(), 1);
    assert_eq!(lib.resolve_session("tok", 15), Some(("bob".to_string(), Role::Admin)));
}

#[test]
fn expiry_stops_at_the_end_of_the_range() {
    let mut lib = Library::new();
    lib.create_session("a".to_string(), "u".to_string(), Role::Lender, i64::MAX - 5, 10);
    assert_eq!(lib.sessions[0].expires_at, i64::MAX);
    lib.create_session("b".to_string(), "u".to_string(), Role::Lender, i64::MIN + 5, -10);
    assert_eq!(lib.sessions[1].expires_at, i64::MIN);
    lib.create_session("c".to_string(), "u".to_string(), Role::Lender, 100, -10);
    assert_eq!(lib.sessions[2].expires_at, 90);
}

#[test]
fn session_keeps_the_role_it_was_opened_with() {
    let mut lib = Library::new();
    assert_eq!(lib.register("alice".to_string(), "d".to_string(), Role::Lender), Ok(1));
    lib.create_session("tok".to_string(), "alice".to_string(), Role::Admin, 0, 10);
    assert_eq!(lib.resolve_session("tok", 1), Some(("alice".to_string(), Role::Admin)));
}

#[test]
fn clock_driven_sessions() {
    let mut lib = Library::new();
    lib.open_session("tok".to_string(), "alice".to_string(), Role::Lender);
    assert!(lib.sessions[0].expires_at > 1_700_000_000 + 86_399);
    assert_eq!(lib.resolve_session_now("tok"), Some(("alice".to_string(), Role::Lender)));
    lib.sessions[0].expires_at = 1_000;
    assert_eq!(lib.resolve_session_now("tok"), None);
    assert!(lib.sessions.is_empty());
}

#[test]
fn gate_admits_by_role() {
    assert_eq!(authorize(Access::Public, None), Ok(()));
    assert_eq!(authorize(Access::Public, Some(Role::Lender)), Ok(()));
    assert_eq!(authorize(Access::Authenticated, None), Err(LedgerError::Unauthorized));
    assert_eq!(authorize(Access::Authenticated, Some(Role::Admin)), Ok(()));
    assert_eq!(authorize(Access::Only(Role::Admin), Some(Role::Admin)), Ok(()));
    assert_eq!(
        authorize(Access::Only(Role::Admin), Some(Role::Lender)),
        Err(LedgerError::Unauthorized)
    );
    assert_eq!(authorize(Access::Only(Role::Admin), None), Err(LedgerError::Unauthorized));
    assert_eq!(authorize(Access::Only(Role::Lender), Some(Role::Lender)), Ok(()));
}

#[test]
fn role_names() {
    assert_eq!(parse_role("admin"), Some(Role::Admin));
    assert_eq!(parse_role("lender"), Some(Role::Lender));
    assert_eq!(parse_role("Admin"), None);
    assert_eq!(parse_role(""), None);
    assert_eq!(role_name(Role::Admin), "admin");
    assert_eq!(role_name(Role::Lender), "lender");
}

#[test]
fn audit_of_sessions() {
    let mut lib = Library::new();
    assert!(lib.sessions_are_ok());
    lib.create_session("a".to_string(), "u".to_string(), Role::Lender, 0, 10);
    lib.create_session("b".to_string(), "u".to_string(), Role::Lender, 0, 10);
    lib.create_session("c".to_string(), "v".to_string(), Role::Admin, 0, 10);
    assert!(lib.sessions_are_ok());
    lib.sessions[2].token = "a".to_string();
    assert!(!lib.sessions_are_ok());
    lib.sessions[2].token = "A".to_string();
    assert!(lib.sessions_are_ok());
}
