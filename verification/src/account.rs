//! Accounts and credential verification: the login state machine over
//! a stored password hash and an encrypted one-time-password seed.

use vstd::prelude::*;
use crate::crypto::{
    decrypt, decrypt_spec, derive_key_raw, derived_key_of, phc_verify_ok, verify_key,
    MAX_BLOB_LEN,
};
use crate::error::ApplicationError;
use crate::crypto::{encrypt, generate_salt, hash_key_fresh, MAX_PLAIN_LEN};
use crate::id::{str_eq, Id};
use crate::session::{
    sessions_pruned, sessions_with_target, sessions_without_target, EndSession, Session,
    WriteSession, REFRESH_LENGTH, SESSION_LENGTH,
};
use crate::store::{generate_token, has_account_id, store_wf, token_alphabet, Store};
use crate::totp::{check_totp, generate_totp_secret, totp_code_of, totp_secret_ok, totp_window_match};
use vstd::pervasive::VecAdditionalExecFns;

verus! {

/// State of the optional second authentication factor.  `reactivate`
/// grants a one-time bypass right after a password change, so that the
/// holder is not locked out before reconfiguring an authenticator.
#[derive(Clone, Copy, Debug, PartialEq, Eq, Structural)]
pub struct TotpData {
    pub active: bool,
    pub reactivate: bool,
}

/// An identity record: names, unique mail, the double-hashed password,
/// the immutable key-derivation nonce, the encrypted one-time-password
/// seed, and the second-factor state.
#[derive(Debug, PartialEq)]
pub struct Account {
    pub id: Id,
    pub first_name: String,
    pub last_name: String,
    pub mail: String,
    pub password: String,
    pub nonce: String,
    pub secret: String,
    pub totp: TotpData,
    pub updated_at: u64,
    pub created_at: u64,
}

impl Clone for Account {
    fn clone(&self) -> (r: Account)
        ensures
            r == *self,
    {
        Account {
            id: self.id.clone(),
            first_name: self.first_name.clone(),
            last_name: self.last_name.clone(),
            mail: self.mail.clone(),
            password: self.password.clone(),
            nonce: self.nonce.clone(),
            secret: self.secret.clone(),
            totp: self.totp,
            updated_at: self.updated_at,
            created_at: self.created_at,
        }
    }
}

/// Structural soundness of a stored account: the identifier points
/// into the account table and the stored fields stay within the
/// lengths the credential engine accepts.
pub open spec fn account_wf(a: Account) -> bool {
    &&& a.id.table@ == "account"@
    &&& a.secret@.len() <= MAX_BLOB_LEN
}

/// View of an optional token argument.
pub open spec fn opt_str_view(token: Option<&str>) -> Option<Seq<char>> {
    match token {
        Some(t) => Some(t@),
        None => None,
    }
}

/// Outcome of the login state machine.
pub enum LoginOutcome {
    /// Every required check passed; a session may be started.
    Accepted,
    /// A credential check failed: wrong password, unreadable seed or
    /// wrong token.  Surfaced uniformly as unauthorized.
    Rejected,
    /// The password is right but the active second factor demands a
    /// token and none was supplied.
    TotpMissing,
    /// The key-derivation primitive rejected the inputs.
    KeyFailure,
}

/// The login state machine: derive a key from the password and the
/// account's nonce, compare against the stored double hash, then -
/// when the second factor is active and not in its one-time bypass -
/// demand a token and check it against the decrypted seed within the
/// clock-skew window.
pub open spec fn login_spec(
    a: Account,
    password: Seq<char>,
    token: Option<Seq<char>>,
    now: u64,
) -> LoginOutcome {
    match derived_key_of(password, a.nonce@) {
        Option::None => LoginOutcome::KeyFailure,
        Option::Some(key) => if !phc_verify_ok(a.password@, key) {
            LoginOutcome::Rejected
        } else if a.totp.active && !a.totp.reactivate {
            match token {
                Option::None => LoginOutcome::TotpMissing,
                Option::Some(t) => match decrypt_spec(key, a.secret@) {
                    Option::None => LoginOutcome::Rejected,
                    Option::Some(seed) => if !totp_secret_ok(seed) {
                        LoginOutcome::Rejected
                    } else if totp_window_match(seed, t, now) {
                        LoginOutcome::Accepted
                    } else {
                        LoginOutcome::Rejected
                    },
                },
            }
        } else {
            LoginOutcome::Accepted
        },
    }
}


/// When the second factor is off, or in its one-time bypass after a
/// password change, a supplied token does not change the outcome of
/// a login: the password decides alone.
pub proof fn lemma_login_ignores_token_when_totp_off(
    a: Account,
    password: Seq<char>,
    token: Option<Seq<char>>,
    now: u64,
)
    ensures
        (!a.totp.active || a.totp.reactivate) ==> login_spec(a, password, token, now)
            == login_spec(a, password, Option::<Seq<char>>::None, now),
{
}

/// An account whose stored hash verifies against the key derived
/// from a password - as every account a write with that password
/// leaves behind does - accepts a login with that password whenever
/// the second factor is off or bypassed, whatever token comes along.
pub proof fn lemma_account_credentials_accept(
    a: Account,
    password: Seq<char>,
    token: Option<Seq<char>>,
    now: u64,
)
    ensures
        (derived_key_of(password, a.nonce@) matches Some(key) && phc_verify_ok(a.password@, key)
            && (!a.totp.active || a.totp.reactivate)) ==> login_spec(a, password, token, now)
            is Accepted,
{
}

/// A password whose derived key does not verify against the stored
/// hash is rejected, before any second-factor consideration.
pub proof fn lemma_wrong_password_rejected(
    a: Account,
    password: Seq<char>,
    token: Option<Seq<char>>,
    now: u64,
)
    ensures
        (derived_key_of(password, a.nonce@) matches Some(key) && !phc_verify_ok(
            a.password@,
            key,
        )) ==> login_spec(a, password, token, now) is Rejected,
{
}

/// With the second factor enforced, a right password alone is not
/// enough: without a token the login demands one, and with a token
/// that matches the current code of the decrypted seed it passes.
pub proof fn lemma_totp_gate(a: Account, password: Seq<char>, token: Seq<char>, now: u64)
    ensures
        (derived_key_of(password, a.nonce@) matches Some(key) && phc_verify_ok(a.password@, key)
            && a.totp.active && !a.totp.reactivate) ==> login_spec(
            a,
            password,
            Option::<Seq<char>>::None,
            now,
        ) is TotpMissing,
        (derived_key_of(password, a.nonce@) matches Some(key) && phc_verify_ok(a.password@, key)
            && a.totp.active && !a.totp.reactivate && (decrypt_spec(key, a.secret@) matches Some(
            seed,
        ) && totp_secret_ok(seed) && token == totp_code_of(seed, now as int / 30))) ==> login_spec(
            a,
            password,
            Some(token),
            now,
        ) is Accepted,
{
}

/// Derivation of the per-account 256-bit key from a password and the
/// account's stored nonce.
pub trait DeriveEncryptionKey {
    fn derive_key(&self, password: &str) -> Result<[u8; 32], ApplicationError>;
}

impl DeriveEncryptionKey for Account {
    /// Derives the account's symmetric key from a password, seeded
    /// with the account's immutable nonce as salt.
    fn derive_key(&self, password: &str) -> (r: Result<[u8; 32], ApplicationError>)
        ensures
            (r is Ok) == (derived_key_of(password@, self.nonce@) is Some),
            r matches Ok(k) ==> Some(k@) == derived_key_of(password@, self.nonce@),
    {
        derive_key_raw(password, self.nonce.as_str())
    }
}

impl Account {
    /// Verifies a password and, when the second factor demands one, a
    /// token, against this account at wall-clock second `now`.
    ///
    /// Exactly the accepting runs of the state machine return success;
    /// a missing token on an enforced second factor is the one failure
    /// that names its cause, every other failure is uniform.
    pub fn login(&self, password: &str, token: Option<&str>, now: u64) -> (r: Result<
        (),
        ApplicationError,
    >)
        requires
            account_wf(*self),
            30 <= now <= u64::MAX - 30,
        ensures
            (r is Ok) == (login_spec(*self, password@, opt_str_view(token), now)
                is Accepted),
            login_spec(*self, password@, opt_str_view(token), now) is Rejected ==> (r matches Err(
                e,
            ) && e is Unauthorized),
            login_spec(*self, password@, opt_str_view(token), now) is TotpMissing ==> (r matches Err(
                e,
            ) && e matches ApplicationError::Forbidden(m) && m@ == "TOTP is required"@),
            login_spec(*self, password@, opt_str_view(token), now) is KeyFailure ==> (r matches Err(
                e,
            ) && e is CryptoError),
    {
        let key = match self.derive_key(password) {
            Ok(k) => k,
            Err(_) => {
                return Err(ApplicationError::CryptoError);
            },
        };
        if !verify_key(self.password.as_str(), &key) {
            return Err(ApplicationError::Unauthorized);
        }
        if self.totp.active && !self.totp.reactivate {
            match token {
                None => Err(ApplicationError::Forbidden("TOTP is required".to_owned())),
                Some(t) => {
                    let seed = match decrypt(&key, self.secret.as_str()) {
                        Ok(s) => s,
                        Err(_) => {
                            return Err(ApplicationError::Unauthorized);
                        },
                    };
                    match check_totp(seed.as_str(), t, now) {
                        Ok(true) => Ok(()),
                        Ok(false) => Err(ApplicationError::Unauthorized),
                        Err(_) => Err(ApplicationError::Unauthorized),
                    }
                },
            }
        } else {
            Ok(())
        }
    }
}

/// View of an optional owned string argument.
pub open spec fn opt_string_view(s: Option<String>) -> Option<Seq<char>> {
    match s {
        Some(x) => Some(x@),
        None => None,
    }
}

/// Whether some account record carries the given mail.
pub open spec fn mail_taken(s: Seq<Account>, mail: Seq<char>) -> bool {
    exists|i: int| 0 <= i < s.len() && (#[trigger] s[i]).mail@ == mail
}

/// Whether an account other than the one with id key `except` carries
/// the given mail.
pub open spec fn mail_taken_by_other(s: Seq<Account>, mail: Seq<char>, except: Seq<char>) -> bool {
    exists|i: int|
        0 <= i < s.len() && (#[trigger] s[i]).mail@ == mail && s[i].id.id@ != except
}

/// The credential gate of an account write: a password change
/// against an existing account demands the old password, and an
/// accepting run of the login state machine with it; a missing old
/// password rejects like a wrong one.  A write that changes no
/// password, or creates the account, passes freely.
pub open spec fn write_gate_outcome(w: WriteAccount, now: u64) -> LoginOutcome {
    match (w.password, w.target) {
        (Option::Some(_), Option::Some(t)) => match w.old_password {
            Option::Some(op) => login_spec(t, op@, opt_string_view(w.token), now),
            Option::None => LoginOutcome::Rejected,
        },
        _ => LoginOutcome::Accepted,
    }
}

/// Whether the write forces the one-time second-factor bypass: a
/// password change on an account whose second factor is active flags
/// it for reactivation, so its holder is not locked out.
pub open spec fn forces_reactivate(w: WriteAccount) -> bool {
    w.password is Some && (w.target matches Some(t) && t.totp.active)
}

/// Command that writes an account: creation when no target account is
/// set, a merge onto the stored record otherwise.  A password change
/// regenerates nonce, derived key, double hash and encrypted seed.
#[derive(Debug)]
pub struct WriteAccount {
    pub first_name: Option<String>,
    pub last_name: Option<String>,
    pub mail: Option<String>,
    pub password: Option<String>,
    pub old_password: Option<String>,
    pub token: Option<String>,
    pub target: Option<Account>,
    pub totp: Option<TotpData>,
}

impl WriteAccount {
    /// An empty write command.
    pub fn new() -> (r: WriteAccount)
        ensures
            r.first_name is None,
            r.last_name is None,
            r.mail is None,
            r.password is None,
            r.old_password is None,
            r.token is None,
            r.target is None,
            r.totp is None,
    {
        WriteAccount {
            first_name: None,
            last_name: None,
            mail: None,
            password: None,
            old_password: None,
            token: None,
            target: None,
            totp: None,
        }
    }

    /// Sets the first name to write.
    pub fn set_first_name(self, value: Option<&str>) -> (r: WriteAccount)
        ensures
            opt_string_view(r.first_name) == opt_str_view(value),
            r.last_name == self.last_name,
            r.mail == self.mail,
            r.password == self.password,
            r.old_password == self.old_password,
            r.token == self.token,
            r.target == self.target,
            r.totp == self.totp,
    {
        WriteAccount {
            first_name: match value {
                Some(v) => Some(v.to_owned()),
                None => None,
            },
            ..self
        }
    }

    /// Sets the last name to write.
    pub fn set_last_name(self, value: Option<&str>) -> (r: WriteAccount)
        ensures
            opt_string_view(r.last_name) == opt_str_view(value),
            r.first_name == self.first_name,
            r.mail == self.mail,
            r.password == self.password,
            r.old_password == self.old_password,
            r.token == self.token,
            r.target == self.target,
            r.totp == self.totp,
    {
        WriteAccount {
            last_name: match value {
                Some(v) => Some(v.to_owned()),
                None => None,
            },
            ..self
        }
    }

    /// Sets the mail to write.
    pub fn set_mail(self, value: Option<&str>) -> (r: WriteAccount)
        ensures
            opt_string_view(r.mail) == opt_str_view(value),
            r.first_name == self.first_name,
            r.last_name == self.last_name,
            r.password == self.password,
            r.old_password == self.old_password,
            r.token == self.token,
            r.target == self.target,
            r.totp == self.totp,
    {
        WriteAccount {
            mail: match value {
                Some(v) => Some(v.to_owned()),
                None => None,
            },
            ..self
        }
    }

    /// Sets the new plaintext password; executing the write then
    /// regenerates every credential artifact.
    pub fn set_password(self, value: Option<String>) -> (r: WriteAccount)
        ensures
            r.password == value,
            r.first_name == self.first_name,
            r.last_name == self.last_name,
            r.mail == self.mail,
            r.old_password == self.old_password,
            r.token == self.token,
            r.target == self.target,
            r.totp == self.totp,
    {
        WriteAccount { password: value, ..self }
    }

    /// Sets the stored account the write merges onto.
    pub fn set_target(self, value: Option<&Account>) -> (r: WriteAccount)
        ensures
            value matches Some(t) ==> r.target == Some(*t),
            value is None ==> r.target is None,
            r.first_name == self.first_name,
            r.last_name == self.last_name,
            r.mail == self.mail,
            r.password == self.password,
            r.old_password == self.old_password,
            r.token == self.token,
            r.totp == self.totp,
    {
        WriteAccount {
            target: match value {
                Some(t) => Some(t.clone()),
                None => None,
            },
            ..self
        }
    }

    /// Switches the second factor on or off, keeping an existing
    /// reactivation flag.
    pub fn set_totp(self, value: bool) -> (r: WriteAccount)
        ensures
            self.totp matches Some(d) ==> r.totp == Some(
                (TotpData { active: value, reactivate: d.reactivate }),
            ),
            self.totp is None ==> r.totp == Some((TotpData { active: value, reactivate: false })),
            r.first_name == self.first_name,
            r.last_name == self.last_name,
            r.mail == self.mail,
            r.password == self.password,
            r.old_password == self.old_password,
            r.token == self.token,
            r.target == self.target,
    {
        WriteAccount {
            totp: match self.totp {
                Some(data) => Some(TotpData { active: value, reactivate: data.reactivate }),
                None => Some(TotpData { active: value, reactivate: false }),
            },
            ..self
        }
    }

    /// Presents the old password, and a token where the second factor
    /// demands one, for the credential gate.
    pub fn authenticate(self, password: &str, token: Option<&str>) -> (r: WriteAccount)
        ensures
            opt_string_view(r.old_password) == Some(password@),
            opt_string_view(r.token) == opt_str_view(token),
            r.first_name == self.first_name,
            r.last_name == self.last_name,
            r.mail == self.mail,
            r.password == self.password,
            r.target == self.target,
            r.totp == self.totp,
    {
        WriteAccount {
            old_password: Some(password.to_owned()),
            token: match token {
                Some(t) => Some(t.to_owned()),
                None => None,
            },
            ..self
        }
    }

    /// Runs the write.
    ///
    /// A password change against an existing account first passes the
    /// credential check: the old password, and a token where the
    /// second factor demands one, must run the login state machine to
    /// acceptance, else that failure is returned and nothing
    /// changes.  A write with a password then draws a fresh nonce,
    /// derives the key, double-hashes it, generates a fresh seed and
    /// encrypts it under the key; an active second factor on the
    /// target is flagged for one-time reactivation.  Without a target
    /// the write creates the account; with one it merges the set
    /// fields onto the stored record.
    #[verifier::loop_isolation(false)]
    pub fn execute(self, store: &mut Store, now: u64) -> (r: Result<Account, ApplicationError>)
        requires
            store_wf(*old(store)),
            30 <= now <= u64::MAX - 30,
            self.target matches Some(t) ==> account_wf(t),
        ensures
            store_wf(*final(store)),
            !(write_gate_outcome(self, now) is Accepted) ==> *final(store) == *old(store),
            write_gate_outcome(self, now) is Rejected ==> (r matches Err(e) && e is Unauthorized),
            write_gate_outcome(self, now) is TotpMissing ==> (r matches Err(e) && e matches
                ApplicationError::Forbidden(m) && m@ == "TOTP is required"@),
            write_gate_outcome(self, now) is KeyFailure ==> (r matches Err(e)
                && e is CryptoError),
            r matches Ok(a) ==> account_wf(a) && a.updated_at == now,
            r matches Ok(a) ==> (self.password matches Some(pw) ==> (a.nonce@.len() == 22 && (
            derived_key_of(pw@, a.nonce@) matches Some(key) && phc_verify_ok(a.password@, key) && (
            decrypt_spec(key, a.secret@) matches Some(seed) && totp_secret_ok(seed))))),
            r matches Ok(a) ==> (forces_reactivate(self) ==> a.totp == (TotpData {
                active: true,
                reactivate: true,
            })),
            r matches Ok(a) ==> (!forces_reactivate(self) ==> (self.totp matches Some(d) ==> a.totp
                == d)),
            r matches Ok(a) ==> (self.first_name matches Some(v) ==> a.first_name@ == v@),
            r matches Ok(a) ==> (self.last_name matches Some(v) ==> a.last_name@ == v@),
            r matches Ok(a) ==> (self.mail matches Some(v) ==> a.mail@ == v@),
            r matches Ok(a) ==> (self.target matches Some(t) ==> (a.id.id@ == t.id.id@
                && a.id.table@ == t.id.table@ && (exists|i: int|
                {
                    &&& 0 <= i < old(store).accounts@.len()
                    &&& (#[trigger] old(store).accounts@[i]).id.id@ == t.id.id@
                    &&& final(store).accounts@ == old(store).accounts@.update(i, a)
                    &&& self.password is None ==> (a.password == old(store).accounts@[i].password
                        && a.nonce == old(store).accounts@[i].nonce && a.secret == old(store).accounts@[i].secret)
                    &&& self.first_name is None ==> a.first_name == old(store).accounts@[i].first_name
                    &&& self.last_name is None ==> a.last_name == old(store).accounts@[i].last_name
                    &&& self.mail is None ==> a.mail == old(store).accounts@[i].mail
                    &&& (!forces_reactivate(self) && self.totp is None) ==> a.totp == old(store).accounts@[i].totp
                    &&& a.created_at == old(store).accounts@[i].created_at
                }))),
            r matches Ok(a) ==> (self.target is None ==> (final(store).accounts@ == old(store).accounts@.push(a) && a.id.id@.len() == 20 && a.created_at == now && (self.totp is None
                ==> a.totp == (TotpData { active: false, reactivate: false })))),
            r is Ok ==> final(store).sessions == old(store).sessions && final(store).permission_nodes == old(store).permission_nodes && final(store).grants == old(store).grants && final(store).hooks == old(store).hooks,
            r is Err ==> *final(store) == *old(store),
            self.target matches Some(t) ==> ((write_gate_outcome(self, now) is Accepted
                && has_account_id(old(store).accounts@, t.id.id@) && (self.mail matches Some(m)
                ==> !mail_taken_by_other(old(store).accounts@, m@, t.id.id@)) && (
            self.password matches Some(pw) ==> pw@.len() <= MAX_PLAIN_LEN)) ==> r is Ok),
            self.mail matches Some(m) ==> (self.password matches Some(pw) ==> ((self.target is None
                && self.first_name is Some && self.last_name is Some && !mail_taken(
                old(store).accounts@,
                m@,
            ) && pw@.len() <= MAX_PLAIN_LEN) ==> (r is Ok || (r matches Err(e)
                && e is InternalServerError)))),
            (self.target is None && (self.first_name is None || self.last_name is None
                || self.mail is None || self.password is None) && (self.password matches Some(pw)
                ==> pw@.len() <= MAX_PLAIN_LEN)) ==> (r matches Err(e) && e is BadRequest),
    {
        if self.password.is_some() && self.target.is_some() {
            match &self.old_password {
                None => {
                    return Err(ApplicationError::Unauthorized);
                },
                Some(op) => {
                    let t = match &self.target {
                        Some(t) => t,
                        None => {
                            proof {
                                assert(false);
                            }
                            vstd::pervasive::unreached()
                        },
                    };
                    let tok: Option<&str> = match &self.token {
                        Some(s) => Some(s.as_str()),
                        None => None,
                    };
                    match t.login(op.as_str(), tok, now) {
                        Ok(()) => {},
                        Err(e) => {
                            return Err(e);
                        },
                    }
                },
            }
        }
        let mut new_password: Option<String> = None;
        let mut new_nonce: Option<String> = None;
        let mut new_secret: Option<String> = None;
        let mut new_totp: Option<TotpData> = self.totp;
        match &self.password {
            Some(pw) => {
                let nonce = generate_salt();
                let key = match derive_key_raw(pw.as_str(), nonce.as_str()) {
                    Ok(k) => k,
                    Err(_) => {
                        return Err(ApplicationError::CryptoError);
                    },
                };
                let hash = hash_key_fresh(&key);
                let seed = generate_totp_secret();
                let blob = encrypt(&key, seed.as_str());
                new_password = Some(hash);
                new_nonce = Some(nonce);
                new_secret = Some(blob);
                match &self.target {
                    Some(t) => {
                        if t.totp.active {
                            new_totp = Some(TotpData { active: true, reactivate: true });
                        }
                    },
                    None => {},
                }
            },
            None => {},
        }
        match self.target {
            Some(t) => {
                let n = store.accounts.len();
                let mut idx: usize = 0;
                while idx < n && !str_eq(store.accounts[idx].id.id.as_str(), t.id.id.as_str())
                    invariant
                        0 <= idx <= n,
                        forall|j: int|
                            0 <= j < idx ==> (#[trigger] store.accounts@[j]).id.id@ != t.id.id@,
                    decreases n - idx,
                {
                    idx = idx + 1;
                }
                if idx == n {
                    return Err(ApplicationError::InternalServerError);
                }
                match &self.mail {
                    Some(m) => {
                        let mut j: usize = 0;
                        while j < n
                            invariant
                                0 <= j <= n,
                                forall|k: int|
                                    0 <= k < j ==> !((#[trigger] store.accounts@[k]).mail@ == m@
                                        && store.accounts@[k].id.id@ != t.id.id@),
                            decreases n - j,
                        {
                            if str_eq(store.accounts[j].mail.as_str(), m.as_str()) && !str_eq(
                                store.accounts[j].id.id.as_str(),
                                t.id.id.as_str(),
                            ) {
                                return Err(ApplicationError::BadRequest(
                                    "mail already in use".to_owned(),
                                ));
                            }
                            j = j + 1;
                        }
                    },
                    None => {},
                }
                let stored = store.accounts[idx].clone();
                let updated = Account {
                    id: stored.id.clone(),
                    first_name: match self.first_name {
                        Some(v) => v,
                        None => stored.first_name.clone(),
                    },
                    last_name: match self.last_name {
                        Some(v) => v,
                        None => stored.last_name.clone(),
                    },
                    mail: match self.mail {
                        Some(v) => v,
                        None => stored.mail.clone(),
                    },
                    password: match new_password {
                        Some(v) => v,
                        None => stored.password.clone(),
                    },
                    nonce: match new_nonce {
                        Some(v) => v,
                        None => stored.nonce.clone(),
                    },
                    secret: match new_secret {
                        Some(v) => v,
                        None => stored.secret.clone(),
                    },
                    totp: match new_totp {
                        Some(v) => v,
                        None => stored.totp,
                    },
                    updated_at: now,
                    created_at: stored.created_at,
                };
                let result = updated.clone();
                store.accounts.set(idx, updated);
                proof {
                    assert(old(store).accounts@[idx as int].id.id@ == t.id.id@);
                    assert(store.accounts@ == old(store).accounts@.update(idx as int, result));
                }
                Ok(result)
            },
            None => {
                let first_name = match self.first_name {
                    Some(v) => v,
                    None => {
                        return Err(ApplicationError::BadRequest("missing field".to_owned()));
                    },
                };
                let last_name = match self.last_name {
                    Some(v) => v,
                    None => {
                        return Err(ApplicationError::BadRequest("missing field".to_owned()));
                    },
                };
                let mail = match self.mail {
                    Some(v) => v,
                    None => {
                        return Err(ApplicationError::BadRequest("missing field".to_owned()));
                    },
                };
                let password = match new_password {
                    Some(v) => v,
                    None => {
                        return Err(ApplicationError::BadRequest("missing field".to_owned()));
                    },
                };
                let nonce = match new_nonce {
                    Some(v) => v,
                    None => {
                        proof {
                            assert(false);
                        }
                        vstd::pervasive::unreached()
                    },
                };
                let secret = match new_secret {
                    Some(v) => v,
                    None => {
                        proof {
                            assert(false);
                        }
                        vstd::pervasive::unreached()
                    },
                };
                let n = store.accounts.len();
                let mut j: usize = 0;
                while j < n
                    invariant
                        0 <= j <= n,
                        forall|k: int| 0 <= k < j ==> (#[trigger] store.accounts@[k]).mail@ != mail@,
                    decreases n - j,
                {
                    if str_eq(store.accounts[j].mail.as_str(), mail.as_str()) {
                        return Err(ApplicationError::BadRequest("mail already in use".to_owned()));
                    }
                    j = j + 1;
                }
                let alphabet = token_alphabet();
                let id_key = generate_token(&alphabet, 20);
                let mut k: usize = 0;
                while k < n
                    invariant
                        0 <= k <= n,
                        forall|x: int|
                            0 <= x < k ==> (#[trigger] store.accounts@[x]).id.id@ != id_key@,
                    decreases n - k,
                {
                    if str_eq(store.accounts[k].id.id.as_str(), id_key.as_str()) {
                        return Err(ApplicationError::InternalServerError);
                    }
                    k = k + 1;
                }
                let account = Account {
                    id: Id::new(("account", id_key.as_str())),
                    first_name,
                    last_name,
                    mail,
                    password,
                    nonce,
                    secret,
                    totp: match new_totp {
                        Some(v) => v,
                        None => TotpData { active: false, reactivate: false },
                    },
                    updated_at: now,
                    created_at: now,
                };
                let result = account.clone();
                store.accounts.push(account);
                Ok(result)
            },
        }
    }
}


impl Account {
    /// Fetches the account that carries the given mail, if any; the
    /// store keeps mails unique, so at most one record matches.
    #[verifier::loop_isolation(false)]
    pub fn from_mail(mail: &str, store: &Store) -> (r: Option<Account>)
        ensures
            (r is Some) == mail_taken(store.accounts@, mail@),
            r matches Some(a) ==> store.accounts@.contains(a) && a.mail@ == mail@,
    {
        let n = store.accounts.len();
        let mut i: usize = 0;
        while i < n
            invariant
                0 <= i <= n,
                n == store.accounts@.len(),
                forall|j: int| 0 <= j < i ==> (#[trigger] store.accounts@[j]).mail@ != mail@,
            decreases n - i,
        {
            if str_eq(store.accounts[i].mail.as_str(), mail) {
                let found = store.accounts[i].clone();
                proof {
                    assert(store.accounts@.contains(store.accounts@[i as int]));
                }
                return Some(found);
            }
            i = i + 1;
        }
        None
    }

    /// Ends every session of this account; logging out twice is not
    /// an error.
    pub fn logout(&self, store: &mut Store)
        requires
            store_wf(*old(store)),
        ensures
            store_wf(*final(store)),
            final(store).sessions@ == sessions_without_target(old(store).sessions@, self.id.id@),
            final(store).accounts == old(store).accounts,
            final(store).permission_nodes == old(store).permission_nodes,
            final(store).grants == old(store).grants,
            final(store).hooks == old(store).hooks,
    {
        EndSession::new(&self.id).execute(store)
    }

    /// Starts a session for this account, terminating any session it
    /// already had.
    pub fn start_session(&self, store: &mut Store, now: u64) -> (r: Result<
        Session,
        ApplicationError,
    >)
        requires
            store_wf(*old(store)),
            now <= u64::MAX - REFRESH_LENGTH,
        ensures
            store_wf(*final(store)),
            (r is Ok) == has_account_id(old(store).accounts@, self.id.id@),
            r matches Err(e) ==> e is InternalServerError && *final(store) == *old(store),
            r matches Ok(sess) ==> {
                &&& sess.target.id@ == self.id.id@
                &&& sess.iat == now
                &&& sess.exp == now + SESSION_LENGTH
                &&& sess.refresh_exp == now + REFRESH_LENGTH
                &&& sess.id.table@ == "session"@
                &&& sess.id.id@.len() == 64
                &&& sess.refresh_token@.len() == 64
                &&& final(store).sessions@ == sessions_pruned(
                    old(store).sessions@,
                    self.id.id@,
                    sess.id.id@,
                ).push(sess)
                &&& sessions_with_target(final(store).sessions@, self.id.id@) == seq![sess]
                &&& final(store).accounts == old(store).accounts
                &&& final(store).permission_nodes == old(store).permission_nodes
                &&& final(store).grants == old(store).grants
                &&& final(store).hooks == old(store).hooks
            },
    {
        WriteSession::new(&self.id).execute(store, now)
    }
}

} // verus!
