use yaud::account::WriteAccount;
use yaud::error::ApplicationError;
use yaud::session::{EndSession, Session, WriteSession};
use yaud::store::Store;

const NOW: u64 = 1_700_000_000;

fn store_with_account() -> (Store, yaud::account::Account) {
    let mut store = Store::new();
    let account = WriteAccount::new()
        .set_first_name(Some("first"))
        .set_last_name(Some("last"))
        .set_mail(Some("session@test.de"))
        .set_password(Some("password".to_owned()))
        .execute(&mut store, NOW)
        .unwrap();
    (store, account)
}

#[test]
fn test_session_start() {
    let (mut store, account) = store_with_account();
    WriteSession::new(&account.id).execute(&mut store, NOW).unwrap();
}

#[test]
fn test_session_validation() {
    let (mut store, account) = store_with_account();

    let session = WriteSession::new(&account.id).execute(&mut store, NOW).unwrap();
    assert!(session.clone().is_valid(&mut store, NOW).is_ok());
    let cloned_session = session.clone();

    let refreshed_session = session
        .refresh(cloned_session.refresh_token().as_str(), &mut store, NOW)
        .unwrap();
    assert!(Session::validate_session(
        cloned_session.id.to_string().as_str(),
        &mut store,
        NOW
    )
    .is_err());
    assert_ne!(refreshed_session.id, cloned_session.id);
    assert_ne!(refreshed_session.refresh_token(), cloned_session.refresh_token());
}

#[test]
fn test_single_active_session() {
    let (mut store, account) = store_with_account();
    let first = WriteSession::new(&account.id).execute(&mut store, NOW).unwrap();
    let second = WriteSession::new(&account.id).execute(&mut store, NOW + 1).unwrap();

    assert!(Session::validate_session(second.id.to_string().as_str(), &mut store, NOW + 2)
        .is_ok());
    assert!(Session::validate_session(first.id.to_string().as_str(), &mut store, NOW + 2)
        .is_err());
}

#[test]
fn test_session_expiry() {
    let (mut store, account) = store_with_account();
    let session = WriteSession::new(&account.id).execute(&mut store, NOW).unwrap();
    let cookie = session.id.to_string();

    // expires_at lies 900 seconds ahead of issuance
    assert_eq!(session.exp, NOW + 900);
    match Session::validate_session(cookie.as_str(), &mut store, session.exp) {
        Err(ApplicationError::Unauthorized) => {}
        other => panic!("expected an unauthorized failure, got {:?}", other),
    }
    // the expired record was deleted on touch: a second validation,
    // even at a fresh time, finds nothing
    match Session::validate_session(cookie.as_str(), &mut store, NOW) {
        Err(ApplicationError::Unauthorized) => {}
        other => panic!("expected an unauthorized failure, got {:?}", other),
    }
}

#[test]
fn test_refresh_rotation() {
    let (mut store, account) = store_with_account();
    let session = WriteSession::new(&account.id).execute(&mut store, NOW).unwrap();
    let old_id = session.id.to_string();
    let old_refresh = session.refresh_token();

    let rotated = session.refresh(old_refresh.as_str(), &mut store, NOW + 60).unwrap();
    assert_ne!(rotated.id.to_string(), old_id);
    assert_ne!(rotated.refresh_token(), old_refresh);
    assert!(Session::validate_session(old_id.as_str(), &mut store, NOW + 61).is_err());
    assert!(Session::validate_session(rotated.id.to_string().as_str(), &mut store, NOW + 61)
        .is_ok());
}

#[test]
fn test_refresh_with_wrong_token_revokes() {
    let (mut store, account) = store_with_account();
    let session = WriteSession::new(&account.id).execute(&mut store, NOW).unwrap();
    let cookie = session.id.to_string();

    match session.refresh("not-the-refresh-token", &mut store, NOW + 1) {
        Err(ApplicationError::Unauthorized) => {}
        other => panic!("expected an unauthorized failure, got {:?}", other),
    }
    // the mismatched attempt revoked the current session too
    assert!(Session::validate_session(cookie.as_str(), &mut store, NOW + 2).is_err());
}

#[test]
fn test_logout_is_idempotent() {
    let (mut store, account) = store_with_account();
    let session = WriteSession::new(&account.id).execute(&mut store, NOW).unwrap();
    EndSession::new(&account.id).execute(&mut store);
    assert!(Session::validate_session(session.id.to_string().as_str(), &mut store, NOW)
        .is_err());
    // ending where nothing is left is not an error
    EndSession::new(&account.id).execute(&mut store);
}

#[test]
fn test_session_for_missing_account() {
    let mut store = Store::new();
    let ghost_id = yaud::id::Id::new(("account", "nobody"));
    match WriteSession::new(&ghost_id).execute(&mut store, NOW) {
        Err(ApplicationError::InternalServerError) => {}
        other => panic!("expected an internal failure, got {:?}", other),
    }
}

#[test]
fn test_session_token_shape() {
    let (mut store, account) = store_with_account();
    let session = WriteSession::new(&account.id).execute(&mut store, NOW).unwrap();
    assert_eq!(session.id.id.len(), 64);
    assert_eq!(session.refresh_token().len(), 64);
    assert!(session.id.id.chars().all(|c| c.is_ascii_alphanumeric()));
    assert_eq!(session.iat, NOW);
    assert_eq!(session.refresh_exp, NOW + 1200);
}

#[test]
fn test_validate_rejects_malformed_cookie() {
    let mut store = Store::new();
    match Session::validate_session("no-colon-here", &mut store, NOW) {
        Err(ApplicationError::BadRequest(reason)) => assert_eq!(reason, "invalid id"),
        other => panic!("expected a bad request, got {:?}", other),
    }
    match Session::validate_session("account:abc", &mut store, NOW) {
        Err(ApplicationError::Unauthorized) => {}
        other => panic!("expected an unauthorized failure, got {:?}", other),
    }
}
