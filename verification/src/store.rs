//! The in-memory record store the authentication core runs against:
//! accounts, sessions, permission nodes, grant edges and hooks, with
//! the uniqueness invariants the backing database enforces.

use vstd::prelude::*;
use crate::account::{account_wf, Account};
use crate::authz::{Grant, Permission};
use crate::hook::Hook;
use crate::id::str_eq;
use crate::session::Session;

verus! {

/// The record store.  Every authorization fact the core consults
/// lives here: identity records, live sessions, the permission
/// catalog's nodes, the directed grant edges, and hook tokens.
pub struct Store {
    pub accounts: Vec<Account>,
    pub sessions: Vec<Session>,
    pub permission_nodes: Vec<Permission>,
    pub grants: Vec<Grant>,
    pub hooks: Vec<Hook>,
}

/// Account records are structurally sound and unique by id and by
/// mail.
pub open spec fn accounts_wf(s: Seq<Account>) -> bool {
    &&& forall|i: int| 0 <= i < s.len() ==> account_wf(#[trigger] s[i])
    &&& forall|i: int, j: int|
        0 <= i < j < s.len() ==> (#[trigger] s[i]).id.id@ != (#[trigger] s[j]).id.id@
    &&& forall|i: int, j: int|
        0 <= i < j < s.len() ==> (#[trigger] s[i]).mail@ != (#[trigger] s[j]).mail@
}

/// Session records live in the session table and are unique by id.
pub open spec fn sessions_wf(s: Seq<Session>) -> bool {
    &&& forall|i: int| 0 <= i < s.len() ==> (#[trigger] s[i]).id.table@ == "session"@
    &&& forall|i: int, j: int|
        0 <= i < j < s.len() ==> (#[trigger] s[i]).id.id@ != (#[trigger] s[j]).id.id@
}

/// Permission nodes are unique by id: the bootstrap creates a node
/// only where it is absent.
pub open spec fn permission_nodes_wf(s: Seq<Permission>) -> bool {
    forall|i: int, j: int|
        0 <= i < j < s.len() ==> (#[trigger] s[i]).id.id@ != (#[trigger] s[j]).id.id@
}

/// Grant edges are unique: granting is idempotent edge creation, so
/// no account-permission pair appears twice.
pub open spec fn grants_wf(s: Seq<Grant>) -> bool {
    forall|i: int, j: int|
        0 <= i < j < s.len() ==> !((#[trigger] s[i]).account@ == (#[trigger] s[j]).account@
            && s[i].permission@ == s[j].permission@)
}

/// The store's invariant: every record class holds its uniqueness and
/// structure conditions.
pub open spec fn store_wf(s: Store) -> bool {
    &&& accounts_wf(s.accounts@)
    &&& sessions_wf(s.sessions@)
    &&& permission_nodes_wf(s.permission_nodes@)
    &&& grants_wf(s.grants@)
}

/// Whether some account record carries the given id key.
pub open spec fn has_account_id(s: Seq<Account>, id: Seq<char>) -> bool {
    exists|i: int| 0 <= i < s.len() && (#[trigger] s[i]).id.id@ == id
}

impl Store {
    /// An empty store, trivially well-formed.
    pub fn new() -> (r: Store)
        ensures
            store_wf(r),
            r.accounts@ =~= Seq::<Account>::empty(),
            r.sessions@ =~= Seq::<Session>::empty(),
            r.permission_nodes@ =~= Seq::<Permission>::empty(),
            r.grants@ =~= Seq::<Grant>::empty(),
            r.hooks@ =~= Seq::<Hook>::empty(),
    {
        Store {
            accounts: Vec::new(),
            sessions: Vec::new(),
            permission_nodes: Vec::new(),
            grants: Vec::new(),
            hooks: Vec::new(),
        }
    }

    /// Fetches the account with the given id key, if one exists.
    #[verifier::loop_isolation(false)]
    pub fn find_account(&self, id: &str) -> (r: Option<Account>)
        ensures
            r matches Some(a) ==> self.accounts@.contains(a) && a.id.id@ == id@,
            (r is Some) == has_account_id(self.accounts@, id@),
    {
        let n = self.accounts.len();
        let mut i: usize = 0;
        while i < n
            invariant
                0 <= i <= n,
                n == self.accounts@.len(),
                forall|j: int| 0 <= j < i ==> (#[trigger] self.accounts@[j]).id.id@ != id@,
            decreases n - i,
        {
            if str_eq(self.accounts[i].id.id.as_str(), id) {
                let found = self.accounts[i].clone();
                proof {
                    assert(self.accounts@.contains(self.accounts@[i as int]));
                }
                return Some(found);
            }
            i = i + 1;
        }
        None
    }

    /// Registers a hook token; inbound hook calls authenticate by
    /// presenting one of these tokens.
    pub fn add_hook(&mut self, hook: Hook)
        ensures
            final(self).hooks@ == old(self).hooks@.push(hook),
            final(self).accounts == old(self).accounts,
            final(self).sessions == old(self).sessions,
            final(self).permission_nodes == old(self).permission_nodes,
            final(self).grants == old(self).grants,
    {
        self.hooks.push(hook);
    }
}

/// A character within the plain 7-bit range.
pub open spec fn ascii_char(c: char) -> bool {
    (c as u32) < 128
}

/// The 62-symbol alphabet session tokens are drawn from.
pub fn token_alphabet() -> (r: Vec<char>)
    ensures
        r@.len() == 62,
        forall|i: int| 0 <= i < r@.len() ==> ascii_char(#[trigger] r@[i]),
{
    let alphabet: Vec<char> = vec![
        '0', '1', '2', '3', '4', '5', '6', '7', '8', '9', 'a', 'b', 'c', 'd', 'e', 'f', 'g',
        'h', 'i', 'j', 'k', 'l', 'm', 'n', 'o', 'p', 'q', 'r', 's', 't', 'u', 'v', 'w', 'x',
        'y', 'z', 'A', 'B', 'C', 'D', 'E', 'F', 'G', 'H', 'I', 'J', 'K', 'L', 'M', 'N', 'O',
        'P', 'Q', 'R', 'S', 'T', 'U', 'V', 'W', 'X', 'Y', 'Z',
    ];
    alphabet
}

/// Relies on `nanoid::format` with `nanoid::rngs::default`: returns
/// exactly `size` symbols, each drawn from the alphabet; an alphabet
/// of at most 255 plain characters is within its accepted bounds.
#[verifier::external_body]
pub fn generate_token(alphabet: &Vec<char>, size: usize) -> (r: String)
    requires
        1 <= alphabet@.len() <= 255,
        1 <= size,
        forall|i: int| 0 <= i < alphabet@.len() ==> ascii_char(#[trigger] alphabet@[i]),
    ensures
        r@.len() == size,
{
    nanoid::format(nanoid::rngs::default, alphabet.as_slice(), size)
}

} // verus!
