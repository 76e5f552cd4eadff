use yaud::account::{Account, WriteAccount};
use yaud::authz::{
    permission_catalog, permission_none, task_request_view, PermissionHandler,
};
use yaud::error::ApplicationError;
use yaud::store::Store;

const NOW: u64 = 1_700_000_000;

fn store_with_account(mail: &str) -> (Store, Account) {
    let mut store = Store::new();
    let account = WriteAccount::new()
        .set_first_name(Some("first"))
        .set_last_name(Some("last"))
        .set_mail(Some(mail))
        .set_password(Some("password".to_owned()))
        .execute(&mut store, NOW)
        .unwrap();
    (store, account)
}

#[test]
fn test_grants() {
    let (mut store, account) = store_with_account("test@test.de");
    let permission = task_request_view();

    assert!(account.has_permission(&permission, &store).is_err());
    account.grant_permission(&permission, &mut store);
    assert!(account.has_permission(&permission, &store).is_ok());
    account.revoke_permission(&permission, &mut store);
    assert!(account.has_permission(&permission, &store).is_err());
}

#[test]
fn test_grant_idempotence() {
    let (mut store, account) = store_with_account("idem@test.de");
    let permission = task_request_view();

    account.grant_permission(&permission, &mut store);
    account.grant_permission(&permission, &mut store);
    account.revoke_permission(&permission, &mut store);
    // one revoke clears a double grant: no dangling duplicate edge
    assert!(account.has_permission(&permission, &store).is_err());
    // revoking an absent grant is not an error
    account.revoke_permission(&permission, &mut store);
}

#[test]
fn test_sentinel_bypass() {
    let (store, account) = store_with_account("sentinel@test.de");
    // the sentinel passes without any grant and without a store edge
    assert!(account.has_permission(&permission_none(), &store).is_ok());
}

#[test]
fn test_permission_scenario() {
    let (mut store, account) = store_with_account("a@test");
    let permission = task_request_view();

    account.grant_permission(&permission, &mut store);
    assert!(account.has_permission(&permission, &store).is_ok());
    account.revoke_permission(&permission, &mut store);
    match account.has_permission(&permission, &store) {
        Err(ApplicationError::Unauthorized) => {}
        other => panic!("expected an unauthorized failure, got {:?}", other),
    }
}

#[test]
fn test_permission_bootstrap() {
    let mut store = Store::new();
    let handler = PermissionHandler::new();
    handler.execute(&mut store);
    let first_round = store.permission_nodes.len();
    handler.execute(&mut store);
    // the bootstrap is idempotent: a second run creates nothing
    assert_eq!(store.permission_nodes.len(), first_round);
    assert_eq!(first_round, permission_catalog().len());
}

#[test]
fn test_permission_id() {
    assert_eq!(task_request_view().id(), "permission:task.request.view");
    assert_eq!(permission_none().id(), "permission:none");
}
