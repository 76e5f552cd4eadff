//! Hook authorization: inbound hook calls authenticate with a stored
//! bearer token, and outbound mail records carry a delivery state.

use vstd::prelude::*;
use crate::error::ApplicationError;
use crate::id::{str_eq, Id};
use crate::store::Store;

verus! {

/// A registered hook: its record id and its bearer token.
#[derive(Debug, PartialEq)]
pub struct Hook {
    pub id: Id,
    pub token: String,
}

impl Clone for Hook {
    fn clone(&self) -> (r: Hook)
        ensures
            r == *self,
    {
        Hook { id: self.id.clone(), token: self.token.clone() }
    }
}

/// Body of an inbound hook call: the bearer token it presents.
#[derive(Debug, PartialEq)]
pub struct HookRequest {
    pub token: String,
}

/// Delivery state of an outbound mail record.
#[derive(Clone, Copy, Debug, PartialEq, Eq, Structural)]
pub enum MailState {
    Pending,
    Processing,
    Delivered,
}

/// Whether some registered hook carries the given token.
pub open spec fn has_hook_token(s: Seq<Hook>, token: Seq<char>) -> bool {
    exists|i: int| 0 <= i < s.len() && (#[trigger] s[i]).token@ == token
}

/// Authorizes an inbound hook call: the presented token must belong
/// to a registered hook; anything else is unauthorized.
#[verifier::loop_isolation(false)]
pub fn authorize_request(token: &str, store: &Store) -> (r: Result<(), ApplicationError>)
    ensures
        (r is Ok) == has_hook_token(store.hooks@, token@),
        r matches Err(e) ==> e is Unauthorized,
{
    let n = store.hooks.len();
    let mut i: usize = 0;
    while i < n
        invariant
            0 <= i <= n,
            n == store.hooks@.len(),
            forall|j: int| 0 <= j < i ==> (#[trigger] store.hooks@[j]).token@ != token@,
        decreases n - i,
    {
        if str_eq(store.hooks[i].token.as_str(), token) {
            return Ok(());
        }
        i = i + 1;
    }
    Err(ApplicationError::Unauthorized)
}

} // verus!
