use yaud::account::WriteAccount;
use yaud::authz::{permission_none, task_request_view};
use yaud::error::ApplicationError;
use yaud::routes::{change_password, login, require_session, ChangePasswordRequest, LoginRequest, RefreshRequest};
use yaud::store::Store;

const NOW: u64 = 1_700_000_000;

fn store_with_account() -> Store {
    let mut store = Store::new();
    WriteAccount::new()
        .set_first_name(Some("first"))
        .set_last_name(Some("last"))
        .set_mail(Some("test@test.de"))
        .set_password(Some("password".to_owned()))
        .execute(&mut store, NOW)
        .unwrap();
    store
}

fn login_request(mail: &str, password: &str) -> LoginRequest {
    LoginRequest { mail: mail.to_owned(), password: password.to_owned(), token: None }
}

#[test]
fn test_login() {
    let mut store = store_with_account();

    let response = login(&login_request("test@test.de", "password"), &mut store, NOW);
    assert!(response.is_ok());

    let response = login(&login_request("somethind different", "password"), &mut store, NOW);
    assert!(matches!(response, Err(ApplicationError::Unauthorized)));

    let response = login(&login_request("test@test.de", "wrong"), &mut store, NOW);
    assert!(matches!(response, Err(ApplicationError::Unauthorized)));
}

#[test]
fn test_logout() {
    let mut store = store_with_account();
    let response = login(&login_request("test@test.de", "password"), &mut store, NOW).unwrap();
    let cookie = response.session.id.to_string();

    let (account, _session) =
        require_session(Some(cookie.as_str()), &permission_none(), &mut store, NOW + 1).unwrap();
    account.logout(&mut store);
    assert!(require_session(Some(cookie.as_str()), &permission_none(), &mut store, NOW + 2)
        .is_err());
}

#[test]
fn test_refresh() {
    let mut store = store_with_account();
    let response = login(&login_request("test@test.de", "password"), &mut store, NOW).unwrap();
    let cookie = response.session.id.to_string();

    let (_, session) =
        require_session(Some(cookie.as_str()), &permission_none(), &mut store, NOW + 1).unwrap();
    let request = RefreshRequest { refresh_token: session.refresh_token() };
    let rotated = session.refresh(request.refresh_token.as_str(), &mut store, NOW + 2);
    assert!(rotated.is_ok());
}

#[test]
fn test_password_change() {
    let mut store = store_with_account();
    let response = login(&login_request("test@test.de", "password"), &mut store, NOW).unwrap();
    let cookie = response.session.id.to_string();

    let (account, _) =
        require_session(Some(cookie.as_str()), &permission_none(), &mut store, NOW + 1).unwrap();
    let request = ChangePasswordRequest {
        old_password: "password".to_owned(),
        new_password: "new_password".to_owned(),
        token: None,
    };
    assert!(change_password(&account, request, &mut store, NOW + 2).is_ok());

    let response = login(&login_request("test@test.de", "password"), &mut store, NOW + 3);
    assert!(matches!(response, Err(ApplicationError::Unauthorized)));

    let response = login(&login_request("test@test.de", "new_password"), &mut store, NOW + 3);
    assert!(response.is_ok());
}

#[test]
fn test_gate_is_uniform() {
    let mut store = store_with_account();
    let response = login(&login_request("test@test.de", "password"), &mut store, NOW).unwrap();
    let cookie = response.session.id.to_string();

    // missing cookie, bad session and missing permission all present
    // identically as unauthorized
    assert!(matches!(
        require_session(None, &permission_none(), &mut store, NOW + 1),
        Err(ApplicationError::Unauthorized)
    ));
    assert!(matches!(
        require_session(Some("session:forged"), &permission_none(), &mut store, NOW + 1),
        Err(ApplicationError::Unauthorized)
    ));
    assert!(matches!(
        require_session(Some(cookie.as_str()), &task_request_view(), &mut store, NOW + 1),
        Err(ApplicationError::Unauthorized)
    ));
    // with the permission granted, the same cookie passes
    let (account, _) =
        require_session(Some(cookie.as_str()), &permission_none(), &mut store, NOW + 1).unwrap();
    account.grant_permission(&task_request_view(), &mut store);
    assert!(require_session(Some(cookie.as_str()), &task_request_view(), &mut store, NOW + 1)
        .is_ok());
}

#[test]
fn test_login_response_reports_reactivation() {
    let mut store = store_with_account();
    let response = login(&login_request("test@test.de", "password"), &mut store, NOW).unwrap();
    assert!(!response.reactivate_totp);
    assert_eq!(response.session.exp, NOW + 900);
}
