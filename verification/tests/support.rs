use yaud::error::{ApplicationError, ApplicationErrorResponse};
use yaud::hook::{authorize_request, Hook, HookRequest};
use yaud::id::Id;
use yaud::page::{default_page, default_page_size, Page, PagingOptions};
use yaud::store::Store;

#[test]
fn test_paging() {
    let entries: Vec<u64> = (0..30).collect();

    let options = PagingOptions::default();
    let response: Page<u64> = options.execute(entries);
    assert_eq!(response.total, 30);
    assert_eq!(response.next_page_offset, 20);
    assert_eq!(response.data.len(), 20);
}

#[test]
fn test_paging_second_page() {
    let entries: Vec<u64> = (0..30).collect();
    let options = PagingOptions { page: 2, page_size: 20 };
    let response = options.execute(entries);
    assert_eq!(response.data, (20..30).collect::<Vec<u64>>());
    assert_eq!(response.pages, 2);
    assert_eq!(response.total, 30);
    assert_eq!(response.next_page_offset, 40);
}

#[test]
fn test_paging_defaults() {
    assert_eq!(default_page(), 1);
    assert_eq!(default_page_size(), 20);
    let options = PagingOptions::default();
    assert_eq!(options.page, 1);
    assert_eq!(options.page_size, 20);
}

#[test]
fn test_paging_past_the_end() {
    let entries: Vec<u64> = (0..5).collect();
    let options = PagingOptions { page: 3, page_size: 4 };
    let response = options.execute(entries);
    assert!(response.data.is_empty());
    assert_eq!(response.pages, 2);
}

#[test]
fn test_authentication() {
    let mut store = Store::new();
    let request = HookRequest { token: "test".to_owned() };
    match authorize_request(request.token.as_str(), &store) {
        Err(ApplicationError::Unauthorized) => {}
        other => panic!("expected an unauthorized failure, got {:?}", other),
    }

    store.add_hook(Hook { id: Id::new(("hook", "h1")), token: "test".to_owned() });
    assert!(authorize_request(request.token.as_str(), &store).is_ok());
}

#[test]
fn test_id_round_trip() {
    let id = Id::new(("session", "abc"));
    assert_eq!(id.to_string(), "session:abc");
    let parsed = Id::try_from(("session", "session:abc")).unwrap();
    assert_eq!(parsed, id);
}

#[test]
fn test_id_parse_errors() {
    match Id::try_from(("session", "plainvalue")) {
        Err(ApplicationError::BadRequest(reason)) => assert_eq!(reason, "invalid id"),
        other => panic!("expected a bad request, got {:?}", other),
    }
    match Id::try_from(("session", "account:abc")) {
        Err(ApplicationError::Unauthorized) => {}
        other => panic!("expected an unauthorized failure, got {:?}", other),
    }
}

#[test]
fn test_error_mapping() {
    assert_eq!(ApplicationError::Unauthorized.status_code(), 401);
    assert_eq!(ApplicationError::BadRequest("x".to_owned()).status_code(), 400);
    assert_eq!(ApplicationError::Forbidden("x".to_owned()).status_code(), 403);
    assert_eq!(ApplicationError::CryptoError.status_code(), 500);
    assert_eq!(ApplicationError::InternalServerError.status_code(), 500);
    assert_eq!(ApplicationError::Unauthorized.message(), "Unauthorized");
    assert_eq!(
        ApplicationError::InternalServerError.message(),
        "Error occurred while processing the request"
    );
    let body = ApplicationErrorResponse::new(&ApplicationError::Unauthorized);
    assert_eq!(body.error, "Unauthorized");
}
