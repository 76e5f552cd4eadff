//! The interfaces the core exposes upward to route handlers: login,
//! logout, session refresh, password change, and the per-request gate
//! that couples session validation with the permission check.

use vstd::prelude::*;
use crate::account::{
    account_wf, login_spec, mail_taken, opt_str_view, opt_string_view, Account, WriteAccount,
};
use crate::authz::{permission_allows, Permission};
use crate::error::ApplicationError;
use crate::session::{
    sessions_pruned, sessions_with_target, validate_expired_sid, validate_spec, Session,
    REFRESH_LENGTH, SESSION_LENGTH, sessions_without_id,
};
use crate::store::{has_account_id, store_wf, Store};

verus! {

/// Credentials a login call presents.
#[derive(Debug)]
pub struct LoginRequest {
    pub mail: String,
    pub password: String,
    pub token: Option<String>,
}

/// What a successful login returns: the session, and whether the
/// second factor awaits reconfiguration after a password change.
#[derive(Debug)]
pub struct LoginResponse {
    pub reactivate_totp: bool,
    pub session: Session,
}

/// Body of a session refresh call.
#[derive(Debug)]
pub struct RefreshRequest {
    pub refresh_token: String,
}

/// Body of a password change call.
#[derive(Debug)]
pub struct ChangePasswordRequest {
    pub old_password: String,
    pub new_password: String,
    pub token: Option<String>,
}

/// Authenticates the credentials and starts a session.
///
/// An unknown mail and a failing credential check present identically
/// as unauthorized; a missing second-factor token alone names its
/// cause, so the caller knows to retry with a token.
pub fn login(data: &LoginRequest, store: &mut Store, now: u64) -> (r: Result<
    LoginResponse,
    ApplicationError,
>)
    requires
        store_wf(*old(store)),
        30 <= now <= u64::MAX - REFRESH_LENGTH,
    ensures
        store_wf(*final(store)),
        !mail_taken(old(store).accounts@, data.mail@) ==> (r matches Err(e) && e is Unauthorized)
            && *final(store) == *old(store),
        forall|i: int|
            (0 <= i < old(store).accounts@.len() && (#[trigger] old(store).accounts@[i]).mail@
                == data.mail@) ==> {
                let acc = old(store).accounts@[i];
                let outcome = login_spec(acc, data.password@, opt_string_view(data.token), now);
                &&& (r is Ok) == (outcome is Accepted)
                &&& outcome is Rejected ==> (r matches Err(e) && e is Unauthorized)
                &&& outcome is TotpMissing ==> (r matches Err(e) && e matches
                    ApplicationError::Forbidden(m) && m@ == "TOTP is required"@)
                &&& outcome is KeyFailure ==> (r matches Err(e) && e is CryptoError)
                &&& r matches Ok(resp) ==> {
                    &&& resp.reactivate_totp == acc.totp.reactivate
                    &&& resp.session.target.id@ == acc.id.id@
                    &&& resp.session.iat == now
                    &&& resp.session.exp == now + SESSION_LENGTH
                    &&& resp.session.refresh_exp == now + REFRESH_LENGTH
                    &&& resp.session.id.table@ == "session"@
                    &&& resp.session.id.id@.len() == 64
                    &&& resp.session.refresh_token@.len() == 64
                    &&& final(store).sessions@ == sessions_pruned(
                        old(store).sessions@,
                        acc.id.id@,
                        resp.session.id.id@,
                    ).push(resp.session)
                    &&& sessions_with_target(final(store).sessions@, acc.id.id@) == seq![
                        resp.session,
                    ]
                }
            },
        r is Err ==> *final(store) == *old(store),
        final(store).accounts == old(store).accounts,
        final(store).permission_nodes == old(store).permission_nodes,
        final(store).grants == old(store).grants,
        final(store).hooks == old(store).hooks,
{
    let account = match Account::from_mail(data.mail.as_str(), store) {
        Some(a) => a,
        None => {
            return Err(ApplicationError::Unauthorized);
        },
    };
    proof {
        let i = choose|i: int|
            0 <= i < store.accounts@.len() && store.accounts@[i] == account;
        assert(account_wf(account));
    }
    let token: Option<&str> = match &data.token {
        Some(t) => Some(t.as_str()),
        None => None,
    };
    match account.login(data.password.as_str(), token, now) {
        Ok(()) => {},
        Err(e) => {
            return Err(e);
        },
    }
    let session = match account.start_session(store, now) {
        Ok(s) => s,
        Err(_) => {
            proof {
                assert(false);
            }
            vstd::pervasive::unreached()
        },
    };
    Ok(LoginResponse { reactivate_totp: account.totp.reactivate, session })
}

/// Whether the request gate admits a request: the cookie must be
/// present, its session id must validate, the owning account must
/// still exist, and the account must hold the required permission.
pub open spec fn gate_allows(
    s: Store,
    cookie: Option<Seq<char>>,
    permission: Permission,
    now: u64,
) -> bool {
    match cookie {
        Option::Some(c) => match validate_spec(s.sessions@, c, now) {
            Option::Some(sess) => has_account_id(s.accounts@, sess.target.id@)
                && permission_allows(s.grants@, sess.target.id@, permission),
            Option::None => false,
        },
        Option::None => false,
    }
}

/// The per-request gate: validates the session cookie, loads the
/// owning account, and checks the required permission.  Every
/// failure, at any step, presents identically as unauthorized, so a
/// caller cannot tell a bad session from a missing permission.  An
/// expired session is deleted on touch.
pub fn require_session(
    cookie: Option<&str>,
    permission: &Permission,
    store: &mut Store,
    now: u64,
) -> (r: Result<(Account, Session), ApplicationError>)
    requires
        store_wf(*old(store)),
    ensures
        store_wf(*final(store)),
        (r is Ok) == gate_allows(*old(store), opt_str_view(cookie), *permission, now),
        r matches Err(e) ==> e is Unauthorized,
        r matches Ok(p) ==> (cookie matches Some(c) && validate_spec(
            old(store).sessions@,
            c@,
            now,
        ) == Some(p.1) && p.0.id.id@ == p.1.target.id@ && old(store).accounts@.contains(p.0)
            && *final(store) == *old(store)),
        cookie matches Some(c) ==> (validate_expired_sid(old(store).sessions@, c@, now)
            matches Some(sid) ==> final(store).sessions@ == sessions_without_id(
            old(store).sessions@,
            sid,
        )),
        cookie matches Some(c) ==> (validate_expired_sid(old(store).sessions@, c@, now) is None
            ==> *final(store) == *old(store)),
        cookie is None ==> *final(store) == *old(store),
        final(store).accounts == old(store).accounts,
        final(store).permission_nodes == old(store).permission_nodes,
        final(store).grants == old(store).grants,
        final(store).hooks == old(store).hooks,
{
    let value = match cookie {
        Some(c) => c,
        None => {
            return Err(ApplicationError::Unauthorized);
        },
    };
    let session = match Session::validate_session(value, store, now) {
        Ok(s) => s,
        Err(_) => {
            return Err(ApplicationError::Unauthorized);
        },
    };
    let account = match store.find_account(session.target.id.as_str()) {
        Some(a) => a,
        None => {
            return Err(ApplicationError::Unauthorized);
        },
    };
    match account.has_permission(permission, store) {
        Ok(()) => Ok((account, session)),
        Err(_) => Err(ApplicationError::Unauthorized),
    }
}

/// Changes the account's password after verifying the old one (and a
/// second-factor token where demanded): regenerates nonce, key, hash
/// and encrypted seed, and flags an active second factor for its
/// one-time bypass.
pub fn change_password(
    account: &Account,
    data: ChangePasswordRequest,
    store: &mut Store,
    now: u64,
) -> (r: Result<(), ApplicationError>)
    requires
        store_wf(*old(store)),
        30 <= now <= u64::MAX - 30,
        account_wf(*account),
    ensures
        store_wf(*final(store)),
        r is Err ==> *final(store) == *old(store),
        final(store).sessions == old(store).sessions,
        final(store).permission_nodes == old(store).permission_nodes,
        final(store).grants == old(store).grants,
        final(store).hooks == old(store).hooks,
        login_spec(*account, data.old_password@, opt_string_view(data.token), now) is Rejected
            ==> (r matches Err(e) && e is Unauthorized),
        login_spec(*account, data.old_password@, opt_string_view(data.token), now) is TotpMissing
            ==> (r matches Err(e) && e matches ApplicationError::Forbidden(m) && m@
            == "TOTP is required"@),
        login_spec(*account, data.old_password@, opt_string_view(data.token), now) is KeyFailure
            ==> (r matches Err(e) && e is CryptoError),
        (login_spec(*account, data.old_password@, opt_string_view(data.token), now) is Accepted
            && has_account_id(old(store).accounts@, account.id.id@) && data.new_password@.len()
            <= crate::crypto::MAX_PLAIN_LEN) ==> r is Ok,
{
    let token: Option<&str> = match &data.token {
        Some(t) => Some(t.as_str()),
        None => None,
    };
    let command = WriteAccount::new().set_password(Some(data.new_password)).set_target(
        Some(account),
    ).authenticate(data.old_password.as_str(), token);
    match command.execute(store, now) {
        Ok(_) => Ok(()),
        Err(e) => Err(e),
    }
}

} // verus!
