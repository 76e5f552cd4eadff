//! Session lifecycle: issuance, validation, refresh rotation and
//! expiry, with at most one active session per account.

use vstd::prelude::*;
use crate::error::ApplicationError;
use crate::id::{parse_key, str_eq, has_colon, Id};
use crate::store::{
    generate_token, has_account_id, sessions_wf, store_wf, token_alphabet, Store,
};

verus! {

/// Seconds a session stays valid after issuance.
pub const SESSION_LENGTH: u64 = 900;

/// Seconds the refresh token of a session stays valid after issuance.
pub const REFRESH_LENGTH: u64 = 1200;

/// An ephemeral credential record: an unguessable id, the owning
/// account, issuance and expiry times, and a separate unguessable
/// refresh token with its own expiry.
#[derive(Debug, PartialEq)]
pub struct Session {
    pub id: Id,
    pub target: Id,
    pub iat: u64,
    pub exp: u64,
    pub refresh_token: String,
    pub refresh_exp: u64,
}

impl Clone for Session {
    fn clone(&self) -> (r: Session)
        ensures
            r == *self,
    {
        Session {
            id: self.id.clone(),
            target: self.target.clone(),
            iat: self.iat,
            exp: self.exp,
            refresh_token: self.refresh_token.clone(),
            refresh_exp: self.refresh_exp,
        }
    }
}

/// The first session carrying the given id key, if any.
pub open spec fn lookup_session(s: Seq<Session>, sid: Seq<char>) -> Option<Session>
    decreases s.len(),
{
    if s.len() == 0 {
        None
    } else if s[0].id.id@ == sid {
        Some(s[0])
    } else {
        lookup_session(s.drop_first(), sid)
    }
}

/// The sessions that survive deleting every session of one account.
pub open spec fn sessions_without_target(s: Seq<Session>, t: Seq<char>) -> Seq<Session>
    decreases s.len(),
{
    if s.len() == 0 {
        Seq::empty()
    } else {
        let rest = sessions_without_target(s.drop_first(), t);
        if s[0].target.id@ == t {
            rest
        } else {
            seq![s[0]] + rest
        }
    }
}

/// The sessions that survive deleting the one with the given id key.
pub open spec fn sessions_without_id(s: Seq<Session>, sid: Seq<char>) -> Seq<Session>
    decreases s.len(),
{
    if s.len() == 0 {
        Seq::empty()
    } else {
        let rest = sessions_without_id(s.drop_first(), sid);
        if s[0].id.id@ == sid {
            rest
        } else {
            seq![s[0]] + rest
        }
    }
}

/// The sessions that survive a session start for account `t` with the
/// fresh id key `sid`: every session of the account goes, and so
/// would a stale record under the fresh key.
pub open spec fn sessions_pruned(s: Seq<Session>, t: Seq<char>, sid: Seq<char>) -> Seq<Session>
    decreases s.len(),
{
    if s.len() == 0 {
        Seq::empty()
    } else {
        let rest = sessions_pruned(s.drop_first(), t, sid);
        if s[0].target.id@ == t || s[0].id.id@ == sid {
            rest
        } else {
            seq![s[0]] + rest
        }
    }
}

/// The sessions owned by one account.
pub open spec fn sessions_with_target(s: Seq<Session>, t: Seq<char>) -> Seq<Session>
    decreases s.len(),
{
    if s.len() == 0 {
        Seq::empty()
    } else {
        let rest = sessions_with_target(s.drop_first(), t);
        if s[0].target.id@ == t {
            seq![s[0]] + rest
        } else {
            rest
        }
    }
}

/// Deleting by account distributes over appending a session.
pub proof fn lemma_swt_push(s: Seq<Session>, x: Session, t: Seq<char>)
    ensures
        sessions_without_target(s.push(x), t) == sessions_without_target(s, t) + (if x.target.id@
            == t {
            Seq::<Session>::empty()
        } else {
            seq![x]
        }),
    decreases s.len(),
{
    let tail: Seq<Session> = if x.target.id@ == t {
        Seq::<Session>::empty()
    } else {
        seq![x]
    };
    if s.len() == 0 {
        reveal_with_fuel(sessions_without_target, 2);
        assert(s.push(x) =~= seq![x]);
        assert(s.push(x).drop_first() =~= Seq::<Session>::empty());
        assert(sessions_without_target(s, t) + tail =~= tail);
        assert(sessions_without_target(s.push(x), t) =~= tail);
    } else {
        assert(s.push(x)[0] == s[0]);
        assert(s.push(x).drop_first() =~= s.drop_first().push(x));
        lemma_swt_push(s.drop_first(), x, t);
        assert(sessions_without_target(s.push(x), t) =~= sessions_without_target(s, t) + tail);
    }
}

/// Deleting by id distributes over appending a session.
pub proof fn lemma_swi_push(s: Seq<Session>, x: Session, sid: Seq<char>)
    ensures
        sessions_without_id(s.push(x), sid) == sessions_without_id(s, sid) + (if x.id.id@ == sid {
            Seq::<Session>::empty()
        } else {
            seq![x]
        }),
    decreases s.len(),
{
    let tail: Seq<Session> = if x.id.id@ == sid {
        Seq::<Session>::empty()
    } else {
        seq![x]
    };
    if s.len() == 0 {
        reveal_with_fuel(sessions_without_id, 2);
        assert(s.push(x) =~= seq![x]);
        assert(s.push(x).drop_first() =~= Seq::<Session>::empty());
        assert(sessions_without_id(s, sid) + tail =~= tail);
        assert(sessions_without_id(s.push(x), sid) =~= tail);
    } else {
        assert(s.push(x)[0] == s[0]);
        assert(s.push(x).drop_first() =~= s.drop_first().push(x));
        lemma_swi_push(s.drop_first(), x, sid);
        assert(sessions_without_id(s.push(x), sid) =~= sessions_without_id(s, sid) + tail);
    }
}

/// Pruning distributes over appending a session.
pub proof fn lemma_pruned_push(s: Seq<Session>, x: Session, t: Seq<char>, sid: Seq<char>)
    ensures
        sessions_pruned(s.push(x), t, sid) == sessions_pruned(s, t, sid) + (if x.target.id@ == t
            || x.id.id@ == sid {
            Seq::<Session>::empty()
        } else {
            seq![x]
        }),
    decreases s.len(),
{
    let tail: Seq<Session> = if x.target.id@ == t || x.id.id@ == sid {
        Seq::<Session>::empty()
    } else {
        seq![x]
    };
    if s.len() == 0 {
        reveal_with_fuel(sessions_pruned, 2);
        assert(s.push(x) =~= seq![x]);
        assert(s.push(x).drop_first() =~= Seq::<Session>::empty());
        assert(sessions_pruned(s, t, sid) + tail =~= tail);
        assert(sessions_pruned(s.push(x), t, sid) =~= tail);
    } else {
        assert(s.push(x)[0] == s[0]);
        assert(s.push(x).drop_first() =~= s.drop_first().push(x));
        lemma_pruned_push(s.drop_first(), x, t, sid);
        assert(sessions_pruned(s.push(x), t, sid) =~= sessions_pruned(s, t, sid) + tail);
    }
}

/// Selecting by account distributes over appending a session.
pub proof fn lemma_with_target_push(s: Seq<Session>, x: Session, t: Seq<char>)
    ensures
        sessions_with_target(s.push(x), t) == sessions_with_target(s, t) + (if x.target.id@ == t {
            seq![x]
        } else {
            Seq::<Session>::empty()
        }),
    decreases s.len(),
{
    let tail: Seq<Session> = if x.target.id@ == t {
        seq![x]
    } else {
        Seq::<Session>::empty()
    };
    if s.len() == 0 {
        reveal_with_fuel(sessions_with_target, 2);
        assert(s.push(x) =~= seq![x]);
        assert(s.push(x).drop_first() =~= Seq::<Session>::empty());
        assert(sessions_with_target(s, t) + tail =~= tail);
        assert(sessions_with_target(s.push(x), t) =~= tail);
    } else {
        assert(s.push(x)[0] == s[0]);
        assert(s.push(x).drop_first() =~= s.drop_first().push(x));
        lemma_with_target_push(s.drop_first(), x, t);
        assert(sessions_with_target(s.push(x), t) =~= sessions_with_target(s, t) + tail);
    }
}

/// What pruning leaves: sessions of other accounts, under other ids,
/// all drawn from the sequence it was taken from.
pub proof fn lemma_pruned_elems(s: Seq<Session>, t: Seq<char>, sid: Seq<char>)
    ensures
        forall|i: int|
            0 <= i < sessions_pruned(s, t, sid).len() ==> {
                let x = #[trigger] sessions_pruned(s, t, sid)[i];
                x.target.id@ != t && x.id.id@ != sid && s.contains(x)
            },
    decreases s.len(),
{
    if s.len() != 0 {
        lemma_pruned_elems(s.drop_first(), t, sid);
        let f = sessions_pruned(s, t, sid);
        let rest = sessions_pruned(s.drop_first(), t, sid);
        assert forall|i: int| 0 <= i < f.len() implies (f[i].target.id@ != t && f[i].id.id@ != sid
            && s.contains(#[trigger] f[i])) by {
            if s[0].target.id@ == t || s[0].id.id@ == sid {
                assert(f[i] == rest[i]);
                let x = rest[i];
                let w = choose|k: int| 0 <= k < s.drop_first().len() && s.drop_first()[k] == x;
                assert(s[w + 1] == x);
            } else {
                if i == 0 {
                    assert(f[0] == s[0]);
                    assert(s.contains(s[0]));
                } else {
                    assert(f[i] == rest[i - 1]);
                    let x = rest[i - 1];
                    let w = choose|k: int| 0 <= k < s.drop_first().len() && s.drop_first()[k] == x;
                    assert(s[w + 1] == x);
                }
            }
        }
    }
}

/// What deleting by id leaves: sessions under other ids, all drawn
/// from the sequence it was taken from.
pub proof fn lemma_swi_elems(s: Seq<Session>, sid: Seq<char>)
    ensures
        forall|i: int|
            0 <= i < sessions_without_id(s, sid).len() ==> {
                let x = #[trigger] sessions_without_id(s, sid)[i];
                x.id.id@ != sid && s.contains(x)
            },
    decreases s.len(),
{
    if s.len() != 0 {
        lemma_swi_elems(s.drop_first(), sid);
        let f = sessions_without_id(s, sid);
        let rest = sessions_without_id(s.drop_first(), sid);
        assert forall|i: int| 0 <= i < f.len() implies (f[i].id.id@ != sid && s.contains(
            #[trigger] f[i],
        )) by {
            if s[0].id.id@ == sid {
                assert(f[i] == rest[i]);
                let x = rest[i];
                let w = choose|k: int| 0 <= k < s.drop_first().len() && s.drop_first()[k] == x;
                assert(s[w + 1] == x);
            } else {
                if i == 0 {
                    assert(f[0] == s[0]);
                    assert(s.contains(s[0]));
                } else {
                    assert(f[i] == rest[i - 1]);
                    let x = rest[i - 1];
                    let w = choose|k: int| 0 <= k < s.drop_first().len() && s.drop_first()[k] == x;
                    assert(s[w + 1] == x);
                }
            }
        }
    }
}

/// A sequence without a session under the key has no lookup result
/// for it.
pub proof fn lemma_lookup_none(s: Seq<Session>, sid: Seq<char>)
    requires
        forall|i: int| 0 <= i < s.len() ==> (#[trigger] s[i]).id.id@ != sid,
    ensures
        lookup_session(s, sid) is None,
    decreases s.len(),
{
    if s.len() != 0 {
        assert(s[0] == s[0]);
        lemma_lookup_none(s.drop_first(), sid);
    }
}

/// Appending shifts a lookup only when the key was absent.
pub proof fn lemma_lookup_push(s: Seq<Session>, x: Session, sid: Seq<char>)
    ensures
        lookup_session(s.push(x), sid) == (if lookup_session(s, sid) is Some {
            lookup_session(s, sid)
        } else if x.id.id@ == sid {
            Some(x)
        } else {
            None
        }),
    decreases s.len(),
{
    if s.len() == 0 {
        reveal_with_fuel(lookup_session, 2);
        assert(s.push(x) =~= seq![x]);
        assert(s.push(x).drop_first() =~= Seq::<Session>::empty());
    } else {
        assert(s.push(x)[0] == s[0]);
        assert(s.push(x).drop_first() =~= s.drop_first().push(x));
        lemma_lookup_push(s.drop_first(), x, sid);
    }
}

/// The expired session id that a validation of this cookie value
/// would delete on touch, if any.
pub open spec fn validate_expired_sid(sessions: Seq<Session>, raw: Seq<char>, now: u64) -> Option<
    Seq<char>,
> {
    match parse_key("session"@, raw) {
        Option::Some(sid) => match lookup_session(sessions, sid) {
            Option::Some(x) => if now >= x.exp {
                Some(sid)
            } else {
                None
            },
            Option::None => None,
        },
        Option::None => None,
    }
}

/// The result of validating a session cookie value against the
/// session records: the value must parse as a session id, the record
/// must exist, and the expiry must lie ahead.
pub open spec fn validate_spec(sessions: Seq<Session>, raw: Seq<char>, now: u64) -> Option<
    Session,
> {
    match parse_key("session"@, raw) {
        Option::Some(sid) => match lookup_session(sessions, sid) {
            Option::Some(sess) => if now < sess.exp {
                Some(sess)
            } else {
                None
            },
            Option::None => None,
        },
        Option::None => None,
    }
}

/// Command that deletes every session owned by one account.
#[derive(Debug)]
pub struct EndSession {
    pub target: Id,
}

impl EndSession {
    /// Assembles the command from the owning account's id.
    pub fn new(target: &Id) -> (r: EndSession)
        ensures
            r.target == *target,
    {
        EndSession { target: target.clone() }
    }

    /// Deletes every session of the account; ending where none exists
    /// changes nothing, so logout is idempotent.
    #[verifier::loop_isolation(false)]
    pub fn execute(&self, store: &mut Store)
        requires
            store_wf(*old(store)),
        ensures
            store_wf(*final(store)),
            final(store).sessions@ == sessions_without_target(
                old(store).sessions@,
                self.target.id@,
            ),
            final(store).accounts == old(store).accounts,
            final(store).permission_nodes == old(store).permission_nodes,
            final(store).grants == old(store).grants,
            final(store).hooks == old(store).hooks,
    {
        let ghost all = store.sessions@;
        let ghost t = self.target.id@;
        let n = store.sessions.len();
        let mut kept: Vec<Session> = Vec::new();
        let mut i: usize = 0;
        while i < n
            invariant
                0 <= i <= n,
                n == all.len(),
                store.sessions@ == all,
                sessions_wf(all),
                t == self.target.id@,
                kept@ == sessions_without_target(all.take(i as int), t),
                forall|x: int|
                    0 <= x < kept@.len() ==> exists|y: int|
                        0 <= y < i && #[trigger] kept@[x] == all[y],
                sessions_wf(kept@),
            decreases n - i,
        {
            proof {
                assert(all.take(i as int + 1) =~= all.take(i as int).push(all[i as int]));
                lemma_swt_push(all.take(i as int), all[i as int], t);
            }
            if !str_eq(store.sessions[i].target.id.as_str(), self.target.id.as_str()) {
                let record = store.sessions[i].clone();
                kept.push(record);
            }
            i = i + 1;
        }
        proof {
            assert(all.take(n as int) =~= all);
        }
        store.sessions = kept;
    }
}

/// Command that starts a session for an account, terminating every
/// session the account already had.
#[derive(Debug)]
pub struct WriteSession {
    pub target: Id,
}

impl WriteSession {
    /// Assembles the command from the owning account's id.
    pub fn new(target: &Id) -> (r: WriteSession)
        ensures
            r.target == *target,
    {
        WriteSession { target: target.clone() }
    }

    /// Starts the session: terminates what the account had, draws a
    /// fresh 64-symbol session id and refresh token, and persists the
    /// record with a 15-minute expiry and a 20-minute refresh window.
    #[verifier::loop_isolation(false)]
    pub fn execute(&self, store: &mut Store, now: u64) -> (r: Result<Session, ApplicationError>)
        requires
            store_wf(*old(store)),
            now <= u64::MAX - REFRESH_LENGTH,
        ensures
            store_wf(*final(store)),
            (r is Ok) == has_account_id(old(store).accounts@, self.target.id@),
            r matches Err(e) ==> e is InternalServerError && *final(store) == *old(store),
            r matches Ok(sess) ==> {
                &&& sess.target == self.target
                &&& sess.iat == now
                &&& sess.exp == now + SESSION_LENGTH
                &&& sess.refresh_exp == now + REFRESH_LENGTH
                &&& sess.id.table@ == "session"@
                &&& sess.id.id@.len() == 64
                &&& sess.refresh_token@.len() == 64
                &&& final(store).sessions@ == sessions_pruned(
                    old(store).sessions@,
                    self.target.id@,
                    sess.id.id@,
                ).push(sess)
                &&& sessions_with_target(final(store).sessions@, self.target.id@) == seq![sess]
                &&& final(store).accounts == old(store).accounts
                &&& final(store).permission_nodes == old(store).permission_nodes
                &&& final(store).grants == old(store).grants
                &&& final(store).hooks == old(store).hooks
            },
    {
        if store.find_account(self.target.id.as_str()).is_none() {
            return Err(ApplicationError::InternalServerError);
        }
        let alphabet = token_alphabet();
        let sid = generate_token(&alphabet, 64);
        let refresh_token = generate_token(&alphabet, 64);
        let sess = Session {
            id: Id::new(("session", sid.as_str())),
            target: self.target.clone(),
            iat: now,
            exp: now + SESSION_LENGTH,
            refresh_token,
            refresh_exp: now + REFRESH_LENGTH,
        };
        let ghost all = store.sessions@;
        let ghost t = self.target.id@;
        let ghost skey = sess.id.id@;
        let n = store.sessions.len();
        let mut kept: Vec<Session> = Vec::new();
        let mut i: usize = 0;
        while i < n
            invariant
                0 <= i <= n,
                n == all.len(),
                store.sessions@ == all,
                sessions_wf(all),
                t == self.target.id@,
                skey == sess.id.id@,
                kept@ == sessions_pruned(all.take(i as int), t, skey),
                forall|x: int|
                    0 <= x < kept@.len() ==> exists|y: int|
                        0 <= y < i && #[trigger] kept@[x] == all[y],
                sessions_wf(kept@),
                forall|x: int| 0 <= x < kept@.len() ==> (#[trigger] kept@[x]).id.id@ != skey,
            decreases n - i,
        {
            proof {
                assert(all.take(i as int + 1) =~= all.take(i as int).push(all[i as int]));
                lemma_pruned_push(all.take(i as int), all[i as int], t, skey);
            }
            if !(str_eq(store.sessions[i].target.id.as_str(), self.target.id.as_str()) || str_eq(
                store.sessions[i].id.id.as_str(),
                sid.as_str(),
            )) {
                let record = store.sessions[i].clone();
                kept.push(record);
            }
            i = i + 1;
        }
        proof {
            assert(all.take(n as int) =~= all);
        }
        let record = sess.clone();
        kept.push(record);
        store.sessions = kept;
        proof {
            let pruned = sessions_pruned(all, t, skey);
            lemma_pruned_elems(all, t, skey);
            lemma_with_target_empty(pruned, t);
            lemma_with_target_push(pruned, sess, t);
            assert(sessions_with_target(pruned.push(sess), t) =~= seq![sess]);
        }
        Ok(sess)
    }
}

impl Session {
    /// The session's refresh token.
    pub fn refresh_token(&self) -> (r: String)
        ensures
            r@ == self.refresh_token@,
    {
        self.refresh_token.clone()
    }

    /// Deletes this session's record.
    #[verifier::loop_isolation(false)]
    pub fn end(&self, store: &mut Store)
        requires
            store_wf(*old(store)),
        ensures
            store_wf(*final(store)),
            final(store).sessions@ == sessions_without_id(old(store).sessions@, self.id.id@),
            final(store).accounts == old(store).accounts,
            final(store).permission_nodes == old(store).permission_nodes,
            final(store).grants == old(store).grants,
            final(store).hooks == old(store).hooks,
    {
        let ghost all = store.sessions@;
        let ghost skey = self.id.id@;
        let n = store.sessions.len();
        let mut kept: Vec<Session> = Vec::new();
        let mut i: usize = 0;
        while i < n
            invariant
                0 <= i <= n,
                n == all.len(),
                store.sessions@ == all,
                sessions_wf(all),
                skey == self.id.id@,
                kept@ == sessions_without_id(all.take(i as int), skey),
                forall|x: int|
                    0 <= x < kept@.len() ==> exists|y: int|
                        0 <= y < i && #[trigger] kept@[x] == all[y],
                sessions_wf(kept@),
            decreases n - i,
        {
            proof {
                assert(all.take(i as int + 1) =~= all.take(i as int).push(all[i as int]));
                lemma_swi_push(all.take(i as int), all[i as int], skey);
            }
            if !str_eq(store.sessions[i].id.id.as_str(), self.id.id.as_str()) {
                let record = store.sessions[i].clone();
                kept.push(record);
            }
            i = i + 1;
        }
        proof {
            assert(all.take(n as int) =~= all);
        }
        store.sessions = kept;
    }

    /// Checks this session's expiry: an expired session is deleted as
    /// a side effect and reported as unauthorized.
    pub fn is_valid(&self, store: &mut Store, now: u64) -> (r: Result<(), ApplicationError>)
        requires
            store_wf(*old(store)),
        ensures
            store_wf(*final(store)),
            (r is Ok) == (now < self.exp),
            r is Ok ==> *final(store) == *old(store),
            r matches Err(e) ==> e is Unauthorized && final(store).sessions@
                == sessions_without_id(old(store).sessions@, self.id.id@) && final(store).accounts
                == old(store).accounts && final(store).permission_nodes
                == old(store).permission_nodes && final(store).grants == old(store).grants && final(
                store).hooks == old(store).hooks,
    {
        if now >= self.exp {
            self.end(store);
            Err(ApplicationError::Unauthorized)
        } else {
            Ok(())
        }
    }

    /// Validates a session cookie value: parses it as a session id,
    /// fetches the record, and checks its expiry.  An expired record
    /// is deleted on touch; every failure beyond a malformed value is
    /// uniform.
    #[verifier::loop_isolation(false)]
    pub fn validate_session(id: &str, store: &mut Store, now: u64) -> (r: Result<
        Session,
        ApplicationError,
    >)
        requires
            store_wf(*old(store)),
        ensures
            store_wf(*final(store)),
            (r is Ok) == (validate_spec(old(store).sessions@, id@, now) is Some),
            r matches Ok(sess) ==> validate_spec(old(store).sessions@, id@, now) == Some(sess)
                && *final(store) == *old(store),
            r is Err ==> final(store).accounts == old(store).accounts && final(store).permission_nodes
                == old(store).permission_nodes && final(store).grants == old(store).grants && final(
                store).hooks == old(store).hooks,
            validate_expired_sid(old(store).sessions@, id@, now) matches Some(sid) ==> (final(store).sessions@
                == sessions_without_id(old(store).sessions@, sid) && (r matches Err(e)
                && e is Unauthorized)),
            validate_expired_sid(old(store).sessions@, id@, now) is None ==> *final(store) == *old(
                store,
            ),
            !has_colon(id@) ==> (r matches Err(ApplicationError::BadRequest(m)) && m@
                == "invalid id"@),
            (has_colon(id@) && r is Err) ==> (r matches Err(e) && e is Unauthorized),
    {
        let key = match Id::try_from(("session", id)) {
            Ok(k) => k,
            Err(e) => {
                return Err(e);
            },
        };
        let n = store.sessions.len();
        let mut i: usize = 0;
        while i < n
            invariant
                0 <= i <= n,
                n == store.sessions@.len(),
                *store == *old(store),
                forall|j: int| 0 <= j < i ==> (#[trigger] store.sessions@[j]).id.id@ != key.id@,
            decreases n - i,
        {
            if str_eq(store.sessions[i].id.id.as_str(), key.id.as_str()) {
                let sess = store.sessions[i].clone();
                proof {
                    lemma_lookup_first(store.sessions@, key.id@, i as int);
                }
                return match sess.is_valid(store, now) {
                    Ok(()) => Ok(sess),
                    Err(_) => Err(ApplicationError::Unauthorized),
                };
            }
            i = i + 1;
        }
        proof {
            lemma_lookup_none(store.sessions@, key.id@);
        }
        Err(ApplicationError::Unauthorized)
    }

    /// Rotates this session: a matching refresh token ends it and
    /// starts a brand-new one for the same account; a mismatched
    /// token still ends it, treating the attempt as a sign of
    /// compromise, and fails as unauthorized.
    pub fn refresh(self, refresh_token: &str, store: &mut Store, now: u64) -> (r: Result<
        Session,
        ApplicationError,
    >)
        requires
            store_wf(*old(store)),
            now <= u64::MAX - REFRESH_LENGTH,
        ensures
            store_wf(*final(store)),
            refresh_token@ == self.refresh_token@ ==> {
                &&& (r is Ok) == has_account_id(old(store).accounts@, self.target.id@)
                &&& (r matches Err(e) ==> e is InternalServerError && *final(store) == *old(
                    store,
                ))
                &&& (r matches Ok(sess) ==> {
                    &&& sess.target == self.target
                    &&& sess.iat == now
                    &&& sess.exp == now + SESSION_LENGTH
                    &&& sess.refresh_exp == now + REFRESH_LENGTH
                    &&& sess.id.table@ == "session"@
                    &&& sess.id.id@.len() == 64
                    &&& sess.refresh_token@.len() == 64
                    &&& final(store).sessions@ == sessions_pruned(
                        old(store).sessions@,
                        self.target.id@,
                        sess.id.id@,
                    ).push(sess)
                    &&& sessions_with_target(final(store).sessions@, self.target.id@) == seq![
                        sess,
                    ]
                    &&& final(store).accounts == old(store).accounts
                    &&& final(store).permission_nodes == old(store).permission_nodes
                    &&& final(store).grants == old(store).grants
                    &&& final(store).hooks == old(store).hooks
                })
            },
            refresh_token@ != self.refresh_token@ ==> {
                &&& r matches Err(e) && e is Unauthorized
                &&& final(store).sessions@ == sessions_without_id(
                    old(store).sessions@,
                    self.id.id@,
                )
                &&& final(store).accounts == old(store).accounts
                &&& final(store).permission_nodes == old(store).permission_nodes
                &&& final(store).grants == old(store).grants
                &&& final(store).hooks == old(store).hooks
            },
    {
        if str_eq(self.refresh_token.as_str(), refresh_token) {
            WriteSession::new(&self.target).execute(store, now)
        } else {
            self.end(store);
            Err(ApplicationError::Unauthorized)
        }
    }
}


/// A sequence whose sessions all belong to other accounts holds no
/// session of the account.
pub proof fn lemma_with_target_empty(s: Seq<Session>, t: Seq<char>)
    requires
        forall|i: int| 0 <= i < s.len() ==> (#[trigger] s[i]).target.id@ != t,
    ensures
        sessions_with_target(s, t) == Seq::<Session>::empty(),
    decreases s.len(),
{
    if s.len() != 0 {
        assert(s[0].target.id@ != t);
        lemma_with_target_empty(s.drop_first(), t);
    }
}

/// Starting a session for an account twice in succession leaves the
/// account with exactly the session of the second start; and once
/// the second start drew a fresh id, the first session's id no
/// longer resolves.
///
/// `n1` and `n2` stand for the records the two starts persist, each
/// start pruning the account's sessions and any record under its
/// fresh id before inserting.
pub proof fn lemma_single_active_session(
    s: Seq<Session>,
    t: Seq<char>,
    n1: Session,
    n2: Session,
)
    requires
        n1.target.id@ == t,
        n2.target.id@ == t,
    ensures
        sessions_with_target(
            sessions_pruned(sessions_pruned(s, t, n1.id.id@).push(n1), t, n2.id.id@).push(n2),
            t,
        ) == seq![n2],
        n1.id.id@ != n2.id.id@ ==> lookup_session(
            sessions_pruned(sessions_pruned(s, t, n1.id.id@).push(n1), t, n2.id.id@).push(n2),
            n1.id.id@,
        ) is None,
{
    let u1 = sessions_pruned(s, t, n1.id.id@);
    lemma_pruned_push(u1, n1, t, n2.id.id@);
    let u2 = sessions_pruned(u1, t, n2.id.id@);
    assert(sessions_pruned(u1.push(n1), t, n2.id.id@) =~= u2);
    lemma_pruned_elems(u1, t, n2.id.id@);
    lemma_pruned_elems(s, t, n1.id.id@);
    lemma_with_target_push(u2, n2, t);
    lemma_with_target_empty(u2, t);
    assert(sessions_with_target(u2.push(n2), t) =~= seq![n2]);
    if n1.id.id@ != n2.id.id@ {
        assert forall|i: int| 0 <= i < u2.len() implies (#[trigger] u2[i]).id.id@ != n1.id.id@ by {
            assert(u2[i].target.id@ != t);
            assert(u1.contains(u2[i]));
            let k = choose|k: int| 0 <= k < u1.len() && u1[k] == u2[i];
            assert(u1[k].id.id@ != n1.id.id@);
        }
        lemma_lookup_none(u2, n1.id.id@);
        lemma_lookup_push(u2, n2, n1.id.id@);
    }
}

/// An expired session deleted on touch is gone: a second validation
/// under the same cookie value finds no record, at any time.
pub proof fn lemma_expired_session_gone(s: Seq<Session>, sid: Seq<char>, now: u64)
    ensures
        lookup_session(sessions_without_id(s, sid), sid) is None,
        forall|raw: Seq<char>|
            parse_key("session"@, raw) == Some(sid) ==> #[trigger] validate_spec(
                sessions_without_id(s, sid),
                raw,
                now,
            ) is None,
{
    lemma_swi_elems(s, sid);
    lemma_lookup_none(sessions_without_id(s, sid), sid);
}

/// A refresh that rotated to a fresh id leaves the old session id
/// unresolvable: every session of the account went, and no other
/// account held the old id.
///
/// `n` stands for the record the rotation persists for account `t`.
pub proof fn lemma_refresh_rotates(s: Seq<Session>, t: Seq<char>, old_sid: Seq<char>, n: Session)
    requires
        n.target.id@ == t,
        forall|i: int|
            0 <= i < s.len() && (#[trigger] s[i]).id.id@ == old_sid ==> s[i].target.id@ == t,
        old_sid != n.id.id@,
    ensures
        lookup_session(sessions_pruned(s, t, n.id.id@).push(n), old_sid) is None,
{
    let u = sessions_pruned(s, t, n.id.id@);
    lemma_pruned_elems(s, t, n.id.id@);
    assert forall|i: int| 0 <= i < u.len() implies (#[trigger] u[i]).id.id@ != old_sid by {
        assert(u[i].target.id@ != t);
        assert(s.contains(u[i]));
        let k = choose|k: int| 0 <= k < s.len() && s[k] == u[i];
        if u[i].id.id@ == old_sid {
            assert(s[k].target.id@ == t);
        }
    }
    lemma_lookup_none(u, old_sid);
    lemma_lookup_push(u, n, old_sid);
}

/// A scan that stopped at index `i` found the first match.
proof fn lemma_lookup_first(s: Seq<Session>, sid: Seq<char>, i: int)
    requires
        0 <= i < s.len(),
        s[i].id.id@ == sid,
        forall|j: int| 0 <= j < i ==> (#[trigger] s[j]).id.id@ != sid,
    ensures
        lookup_session(s, sid) == Some(s[i]),
    decreases i,
{
    if i == 0 {
    } else {
        assert(s[0].id.id@ != sid);
        assert(s.drop_first()[i - 1] == s[i]);
        assert(forall|j: int| 0 <= j < i - 1 ==> s.drop_first()[j] == s[j + 1]);
        lemma_lookup_first(s.drop_first(), sid, i - 1);
    }
}

} // verus!
