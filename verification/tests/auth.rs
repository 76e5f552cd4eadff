use yaud::account::{Account, DeriveEncryptionKey, TotpData, WriteAccount};
use yaud::crypto::decrypt;
use yaud::error::ApplicationError;
use yaud::id::Id;
use yaud::store::Store;

const NOW: u64 = 1_700_000_000;

fn created_account(store: &mut Store) -> Account {
    WriteAccount::new()
        .set_first_name(Some("first"))
        .set_last_name(Some("last"))
        .set_mail(Some("test@test.de"))
        .set_password(Some("password".to_owned()))
        .execute(store, NOW)
        .unwrap()
}

#[test]
fn mod_test_login() {
    let mut store = Store::new();
    let account = created_account(&mut store);

    assert!(account.login("password", None, NOW).is_ok());
    assert!(account.login("password1", None, NOW).is_err());
    assert!(account.login("password", Some("123456"), NOW).is_ok());

    assert!(WriteAccount::new()
        .set_target(Some(&account))
        .set_password(Some("different".to_owned()))
        .execute(&mut store, NOW)
        .is_err());
    let account = WriteAccount::new()
        .set_target(Some(&account))
        .set_password(Some("different".to_owned()))
        .authenticate("password", None)
        .execute(&mut store, NOW)
        .unwrap();
    assert!(account.login("different", None, NOW).is_ok());
    assert!(account.login("password", None, NOW).is_err());

    let account = WriteAccount::new()
        .set_target(Some(&account))
        .set_totp(true)
        .execute(&mut store, NOW)
        .unwrap();
    let key = account.derive_key("different").unwrap();
    let secret = decrypt(&key, account.secret.as_str()).unwrap();
    let totp = totp_rs::TOTP::new(totp_rs::Algorithm::SHA1, 6, 1, 30, secret.as_bytes().to_vec())
        .unwrap();
    let token = totp.generate(NOW);
    let invalid_token = totp.generate(NOW - 300);
    assert!(account.login("different", None, NOW).is_err());
    assert!(account.login("different", Some("123456"), NOW).is_err());
    assert!(account.login("different", Some(invalid_token.as_str()), NOW).is_err());
    assert!(account.login("different", Some(token.as_str()), NOW).is_ok());
    assert!(account.login("password", Some(token.as_str()), NOW).is_err());
}

#[test]
fn test_write() {
    let mut store = Store::new();
    let account = WriteAccount::new()
        .set_first_name(Some("first name"))
        .set_last_name(Some("last name"))
        .set_mail(Some("test@test.de"))
        .set_password(Some("password".to_owned()))
        .execute(&mut store, NOW)
        .unwrap();

    assert_eq!(account.first_name, "first name".to_owned());
    assert_eq!(account.last_name, "last name".to_owned());
    assert_eq!(account.mail, "test@test.de".to_owned());
    assert_ne!(account.password, "password".to_owned());
}

#[test]
fn test_totp_gate_fails_with_forbidden() {
    let mut store = Store::new();
    let account = created_account(&mut store);
    let account = WriteAccount::new()
        .set_target(Some(&account))
        .set_totp(true)
        .execute(&mut store, NOW)
        .unwrap();

    match account.login("password", None, NOW) {
        Err(ApplicationError::Forbidden(reason)) => assert_eq!(reason, "TOTP is required"),
        other => panic!("expected a forbidden failure, got {:?}", other),
    }
    match account.login("wrong", None, NOW) {
        Err(ApplicationError::Unauthorized) => {}
        other => panic!("expected an unauthorized failure, got {:?}", other),
    }
}

#[test]
fn test_reactivate_bypasses_totp() {
    let mut store = Store::new();
    let account = created_account(&mut store);
    let account = WriteAccount::new()
        .set_target(Some(&account))
        .set_totp(true)
        .execute(&mut store, NOW)
        .unwrap();
    // a password change while the second factor is active flags the
    // one-time bypass, so the next login passes without a token
    let totp = totp_rs::TOTP::new(
        totp_rs::Algorithm::SHA1,
        6,
        1,
        30,
        decrypt(&account.derive_key("password").unwrap(), account.secret.as_str())
            .unwrap()
            .as_bytes()
            .to_vec(),
    )
    .unwrap();
    let token = totp.generate(NOW);
    let account = WriteAccount::new()
        .set_target(Some(&account))
        .set_password(Some("fresh".to_owned()))
        .authenticate("password", Some(token.as_str()))
        .execute(&mut store, NOW)
        .unwrap();
    assert_eq!(account.totp, TotpData { active: true, reactivate: true });
    assert!(account.login("fresh", None, NOW).is_ok());
}

#[test]
fn test_derive_key_is_deterministic() {
    let mut store = Store::new();
    let account = created_account(&mut store);
    let first = account.derive_key("password").unwrap();
    let second = account.derive_key("password").unwrap();
    assert_eq!(first, second);
    assert_ne!(first, account.derive_key("other").unwrap());
    assert_eq!(account.nonce.len(), 22);
}

#[test]
fn test_derive_key_rejects_short_nonce() {
    let account = Account {
        id: Id::new(("account", "x")),
        first_name: "first".to_owned(),
        last_name: "last".to_owned(),
        mail: "x@test.de".to_owned(),
        password: "hash".to_owned(),
        nonce: "tiny".to_owned(),
        secret: String::new(),
        totp: TotpData { active: false, reactivate: false },
        updated_at: 0,
        created_at: 0,
    };
    match account.derive_key("password") {
        Err(ApplicationError::CryptoError) => {}
        other => panic!("expected a crypto failure, got {:?}", other),
    }
}

#[test]
fn test_create_requires_fields() {
    let mut store = Store::new();
    match WriteAccount::new()
        .set_mail(Some("a@test"))
        .set_password(Some("pw".to_owned()))
        .execute(&mut store, NOW)
    {
        Err(ApplicationError::BadRequest(_)) => {}
        other => panic!("expected a bad request, got {:?}", other),
    }
}

#[test]
fn test_duplicate_mail_rejected() {
    let mut store = Store::new();
    let _ = created_account(&mut store);
    match WriteAccount::new()
        .set_first_name(Some("other"))
        .set_last_name(Some("person"))
        .set_mail(Some("test@test.de"))
        .set_password(Some("password".to_owned()))
        .execute(&mut store, NOW)
    {
        Err(ApplicationError::BadRequest(reason)) => assert_eq!(reason, "mail already in use"),
        other => panic!("expected a bad request, got {:?}", other),
    }
}

#[test]
fn test_from_mail() {
    let mut store = Store::new();
    let account = created_account(&mut store);
    let found = Account::from_mail("test@test.de", &store).unwrap();
    assert_eq!(found, account);
    assert!(Account::from_mail("missing@test.de", &store).is_none());
}
