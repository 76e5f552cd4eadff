//! The permission graph: a static catalog of capabilities, directed
//! grant edges from accounts to permissions, and the membership query
//! that authorizes requests.

use vstd::prelude::*;
use crate::account::Account;
use crate::error::ApplicationError;
use crate::id::{str_eq, Id};
use crate::store::{grants_wf, permission_nodes_wf, store_wf, Store};

verus! {

/// A named capability, identified by a stable string id.
#[derive(Debug, PartialEq)]
pub struct Permission {
    pub id: Id,
}

impl Clone for Permission {
    fn clone(&self) -> (r: Permission)
        ensures
            r == *self,
    {
        Permission { id: self.id.clone() }
    }
}

impl Permission {
    /// The permission's full stable identifier, `permission:<name>`.
    pub fn id(&self) -> (r: String)
        ensures
            r@ == self.id.table@ + ":"@ + self.id.id@,
    {
        self.id.to_string()
    }
}

/// The sentinel permission that every account holds implicitly: a
/// route that demands it needs no specific capability.
pub fn permission_none() -> (r: Permission)
    ensures
        r.id.table@ == "permission"@,
        r.id.id@ == "none"@,
{
    Permission { id: Id::new(("permission", "none")) }
}

/// The capability to view task requests.
pub fn task_request_view() -> (r: Permission)
    ensures
        r.id.table@ == "permission"@,
        r.id.id@ == "task.request.view"@,
{
    Permission { id: Id::new(("permission", "task.request.view")) }
}

/// The compiled-in catalog of defined permissions.  The sentinel is
/// not part of it: it needs no node in the store.
pub fn permission_catalog() -> (r: Vec<Permission>)
    ensures
        r@.len() == 1,
        r@[0].id.table@ == "permission"@,
        r@[0].id.id@ == "task.request.view"@,
{
    let mut catalog: Vec<Permission> = Vec::new();
    catalog.push(task_request_view());
    catalog
}

/// A directed grant edge: the account with key `account` holds the
/// permission with key `permission`.  Existence of the edge is the
/// sole authorization fact.
#[derive(Debug, PartialEq)]
pub struct Grant {
    pub account: String,
    pub permission: String,
}

impl Clone for Grant {
    fn clone(&self) -> (r: Grant)
        ensures
            r == *self,
    {
        Grant { account: self.account.clone(), permission: self.permission.clone() }
    }
}

/// Whether a grant edge from the account to the permission exists.
pub open spec fn has_grant(g: Seq<Grant>, account: Seq<char>, permission: Seq<char>) -> bool {
    exists|i: int|
        0 <= i < g.len() && (#[trigger] g[i]).account@ == account && g[i].permission@ == permission
}

/// Whether a permission check passes for an account under a grant
/// set: the sentinel always passes, anything else demands its edge.
pub open spec fn permission_allows(g: Seq<Grant>, account: Seq<char>, p: Permission) -> bool {
    p.id.id@ == "none"@ || has_grant(g, account, p.id.id@)
}

/// The sentinel permission authorizes every account under every
/// grant set, without requiring any edge.
pub proof fn lemma_sentinel_bypass(g: Seq<Grant>, account: Seq<char>, p: Permission)
    requires
        p.id.id@ == "none"@,
    ensures
        permission_allows(g, account, p),
{
}

/// The grant edge a grant operation would create for the pair.
pub open spec fn grant_edge_for(e: Grant, account: Seq<char>, permission: Seq<char>) -> bool {
    e.account@ == account && e.permission@ == permission
}

/// The grant set after an idempotent grant of the pair.
pub open spec fn granted(g: Seq<Grant>, e: Grant, account: Seq<char>, permission: Seq<char>) -> Seq<
    Grant,
> {
    if has_grant(g, account, permission) {
        g
    } else {
        g.push(e)
    }
}

/// Granting the same permission to the same account twice adds one
/// edge at most - the second grant changes nothing - and one revoke
/// then leaves the account without the permission.
pub proof fn lemma_grant_twice_revoke_once(
    g: Seq<Grant>,
    e1: Grant,
    e2: Grant,
    account: Seq<char>,
    permission: Seq<char>,
)
    requires
        grant_edge_for(e1, account, permission),
        grant_edge_for(e2, account, permission),
    ensures
        granted(granted(g, e1, account, permission), e2, account, permission) == granted(
            g,
            e1,
            account,
            permission,
        ),
        !has_grant(
            grants_without(granted(g, e1, account, permission), account, permission),
            account,
            permission,
        ),
{
    let g1 = granted(g, e1, account, permission);
    if !has_grant(g, account, permission) {
        assert(g1[g1.len() - 1] == e1);
    }
    assert(has_grant(g1, account, permission));
    lemma_grants_without_props(g1, account, permission);
}

/// The grant edges that remain when every edge from the account to
/// the permission is deleted.
pub open spec fn grants_without(g: Seq<Grant>, account: Seq<char>, permission: Seq<char>) -> Seq<
    Grant,
>
    decreases g.len(),
{
    if g.len() == 0 {
        Seq::empty()
    } else {
        let rest = grants_without(g.drop_first(), account, permission);
        if g[0].account@ == account && g[0].permission@ == permission {
            rest
        } else {
            seq![g[0]] + rest
        }
    }
}

/// Deleting edges of one pair distributes over appending an edge.
pub proof fn lemma_grants_without_push(g: Seq<Grant>, x: Grant, a: Seq<char>, p: Seq<char>)
    ensures
        grants_without(g.push(x), a, p) == grants_without(g, a, p) + (if x.account@ == a
            && x.permission@ == p {
            Seq::<Grant>::empty()
        } else {
            seq![x]
        }),
    decreases g.len(),
{
    let tail: Seq<Grant> = if x.account@ == a && x.permission@ == p {
        Seq::<Grant>::empty()
    } else {
        seq![x]
    };
    if g.len() == 0 {
        reveal_with_fuel(grants_without, 2);
        assert(g.push(x) =~= seq![x]);
        assert(g.push(x).drop_first() =~= Seq::<Grant>::empty());
        assert(grants_without(g, a, p) + tail =~= tail);
        assert(grants_without(g.push(x), a, p) =~= tail);
    } else {
        assert(g.push(x)[0] == g[0]);
        assert(g.push(x).drop_first() =~= g.drop_first().push(x));
        lemma_grants_without_push(g.drop_first(), x, a, p);
        assert(grants_without(g.push(x), a, p) =~= grants_without(g, a, p) + tail);
    }
}

/// No edge of the deleted pair remains, and every edge that remains
/// was there before.
pub proof fn lemma_grants_without_props(g: Seq<Grant>, a: Seq<char>, p: Seq<char>)
    ensures
        !has_grant(grants_without(g, a, p), a, p),
        forall|i: int|
            0 <= i < grants_without(g, a, p).len() ==> g.contains(
                #[trigger] grants_without(g, a, p)[i],
            ),
    decreases g.len(),
{
    if g.len() != 0 {
        lemma_grants_without_props(g.drop_first(), a, p);
        assert(forall|i: int|
            0 <= i < g.drop_first().len() ==> g.contains(#[trigger] g.drop_first()[i]));
    }
}

impl Account {
    /// Whether this account holds the permission.  The sentinel
    /// permission passes without consulting the store; otherwise the
    /// existence of the grant edge is authoritative, and its absence
    /// is surfaced uniformly as unauthorized.
    #[verifier::loop_isolation(false)]
    pub fn has_permission(&self, permission: &Permission, store: &Store) -> (r: Result<
        (),
        ApplicationError,
    >)
        ensures
            (r is Ok) == permission_allows(store.grants@, self.id.id@, *permission),
            r matches Err(e) ==> e is Unauthorized,
    {
        if str_eq(permission.id.id.as_str(), "none") {
            return Ok(());
        }
        let n = store.grants.len();
        let mut i: usize = 0;
        while i < n
            invariant
                0 <= i <= n,
                n == store.grants@.len(),
                forall|j: int|
                    0 <= j < i ==> !((#[trigger] store.grants@[j]).account@ == self.id.id@
                        && store.grants@[j].permission@ == permission.id.id@),
            decreases n - i,
        {
            if str_eq(store.grants[i].account.as_str(), self.id.id.as_str()) && str_eq(
                store.grants[i].permission.as_str(),
                permission.id.id.as_str(),
            ) {
                return Ok(());
            }
            i = i + 1;
        }
        Err(ApplicationError::Unauthorized)
    }

    /// Grants the permission to this account: idempotent edge
    /// creation.
    pub fn grant_permission(&self, permission: &Permission, store: &mut Store)
        requires
            store_wf(*old(store)),
        ensures
            store_wf(*final(store)),
            final(store).grants@ == if has_grant(
                old(store).grants@,
                self.id.id@,
                permission.id.id@,
            ) {
                old(store).grants@
            } else {
                old(store).grants@.push(
                    (Grant { account: self.id.id, permission: permission.id.id }),
                )
            },
            has_grant(final(store).grants@, self.id.id@, permission.id.id@),
            final(store).accounts == old(store).accounts,
            final(store).sessions == old(store).sessions,
            final(store).permission_nodes == old(store).permission_nodes,
            final(store).hooks == old(store).hooks,
    {
        GrantPermission::new(permission, &self.id).execute(store)
    }

    /// Revokes the permission from this account, deleting every
    /// matching edge; revoking an absent grant is not an error.
    pub fn revoke_permission(&self, permission: &Permission, store: &mut Store)
        requires
            store_wf(*old(store)),
        ensures
            store_wf(*final(store)),
            final(store).grants@ == grants_without(
                old(store).grants@,
                self.id.id@,
                permission.id.id@,
            ),
            !has_grant(final(store).grants@, self.id.id@, permission.id.id@),
            final(store).accounts == old(store).accounts,
            final(store).sessions == old(store).sessions,
            final(store).permission_nodes == old(store).permission_nodes,
            final(store).hooks == old(store).hooks,
    {
        RevokePermission::new(permission, &self.id).execute(store)
    }
}

/// Command that creates a grant edge.
#[derive(Debug)]
pub struct GrantPermission {
    pub permission: Permission,
    pub target: Id,
}

impl GrantPermission {
    /// Assembles the command from the permission and the account id.
    pub fn new(permission: &Permission, target: &Id) -> (r: GrantPermission)
        ensures
            r.permission == *permission,
            r.target == *target,
    {
        GrantPermission { permission: permission.clone(), target: target.clone() }
    }

    /// Creates the edge unless it already exists.
    #[verifier::loop_isolation(false)]
    pub fn execute(&self, store: &mut Store)
        requires
            store_wf(*old(store)),
        ensures
            store_wf(*final(store)),
            final(store).grants@ == if has_grant(
                old(store).grants@,
                self.target.id@,
                self.permission.id.id@,
            ) {
                old(store).grants@
            } else {
                old(store).grants@.push(
                    (Grant { account: self.target.id, permission: self.permission.id.id }),
                )
            },
            has_grant(final(store).grants@, self.target.id@, self.permission.id.id@),
            final(store).accounts == old(store).accounts,
            final(store).sessions == old(store).sessions,
            final(store).permission_nodes == old(store).permission_nodes,
            final(store).hooks == old(store).hooks,
    {
        let n = store.grants.len();
        let mut i: usize = 0;
        while i < n
            invariant
                0 <= i <= n,
                n == store.grants@.len(),
                forall|j: int|
                    0 <= j < i ==> !((#[trigger] store.grants@[j]).account@ == self.target.id@
                        && store.grants@[j].permission@ == self.permission.id.id@),
            decreases n - i,
        {
            if str_eq(store.grants[i].account.as_str(), self.target.id.as_str()) && str_eq(
                store.grants[i].permission.as_str(),
                self.permission.id.id.as_str(),
            ) {
                return ;
            }
            i = i + 1;
        }
        let edge = Grant {
            account: self.target.id.clone(),
            permission: self.permission.id.id.clone(),
        };
        store.grants.push(edge);
        proof {
            let g = store.grants@;
            assert(g[g.len() - 1].account@ == self.target.id@);
            assert(g[g.len() - 1].permission@ == self.permission.id.id@);
        }
    }
}

/// Command that deletes every edge of one account-permission pair.
#[derive(Debug)]
pub struct RevokePermission {
    pub permission: Permission,
    pub target: Id,
}

impl RevokePermission {
    /// Assembles the command from the permission and the account id.
    pub fn new(permission: &Permission, target: &Id) -> (r: RevokePermission)
        ensures
            r.permission == *permission,
            r.target == *target,
    {
        RevokePermission { permission: permission.clone(), target: target.clone() }
    }

    /// Deletes the matching edges; an absent grant is not an error.
    #[verifier::loop_isolation(false)]
    pub fn execute(&self, store: &mut Store)
        requires
            store_wf(*old(store)),
        ensures
            store_wf(*final(store)),
            final(store).grants@ == grants_without(
                old(store).grants@,
                self.target.id@,
                self.permission.id.id@,
            ),
            !has_grant(final(store).grants@, self.target.id@, self.permission.id.id@),
            final(store).accounts == old(store).accounts,
            final(store).sessions == old(store).sessions,
            final(store).permission_nodes == old(store).permission_nodes,
            final(store).hooks == old(store).hooks,
    {
        let ghost all = store.grants@;
        let ghost a = self.target.id@;
        let ghost p = self.permission.id.id@;
        let n = store.grants.len();
        let mut kept: Vec<Grant> = Vec::new();
        let mut i: usize = 0;
        while i < n
            invariant
                0 <= i <= n,
                n == all.len(),
                store.grants@ == all,
                grants_wf(all),
                kept@ == grants_without(all.take(i as int), a, p),
                a == self.target.id@,
                p == self.permission.id.id@,
                forall|x: int|
                    0 <= x < kept@.len() ==> exists|y: int|
                        0 <= y < i && #[trigger] kept@[x] == all[y],
                grants_wf(kept@),
            decreases n - i,
        {
            let keep = !(str_eq(store.grants[i].account.as_str(), self.target.id.as_str())
                && str_eq(store.grants[i].permission.as_str(), self.permission.id.id.as_str()));
            proof {
                assert(all.take(i as int + 1) =~= all.take(i as int).push(all[i as int]));
                lemma_grants_without_push(all.take(i as int), all[i as int], a, p);
            }
            if keep {
                let edge = store.grants[i].clone();
                kept.push(edge);
            }
            i = i + 1;
        }
        proof {
            assert(all.take(n as int) =~= all);
            lemma_grants_without_props(all, a, p);
        }
        store.grants = kept;
    }
}

/// Command that lazily creates the catalog's permission nodes:
/// idempotent bootstrap, run at startup.
#[derive(Debug)]
pub struct PermissionHandler {}

impl PermissionHandler {
    /// Assembles the bootstrap command.
    pub fn new() -> (r: PermissionHandler) {
        PermissionHandler {  }
    }

    /// Creates a node for every catalog permission that has none yet.
    /// Running it twice changes nothing the second time.
    #[verifier::loop_isolation(false)]
    pub fn execute(&self, store: &mut Store)
        requires
            store_wf(*old(store)),
        ensures
            store_wf(*final(store)),
            forall|i: int|
                0 <= i < old(store).permission_nodes@.len()
                    ==> final(store).permission_nodes@.contains(
                    #[trigger] old(store).permission_nodes@[i],
                ),
            forall|i: int|
                0 <= i < final(store).permission_nodes@.len() ==> old(store).permission_nodes@.contains(
                    #[trigger] final(store).permission_nodes@[i],
                ) || (#[trigger] final(store).permission_nodes@[i]).id.id@ == "task.request.view"@,
            has_permission_node(final(store).permission_nodes@, "task.request.view"@),
            has_permission_node(old(store).permission_nodes@, "task.request.view"@) ==> final(store).permission_nodes@
                == old(store).permission_nodes@,
            final(store).accounts == old(store).accounts,
            final(store).sessions == old(store).sessions,
            final(store).grants == old(store).grants,
            final(store).hooks == old(store).hooks,
    {
        let catalog = permission_catalog();
        let wanted = &catalog[0];
        let n = store.permission_nodes.len();
        let mut i: usize = 0;
        while i < n
            invariant
                0 <= i <= n,
                n == store.permission_nodes@.len(),
                forall|j: int|
                    0 <= j < i ==> (#[trigger] store.permission_nodes@[j]).id.id@
                        != wanted.id.id@,
                wanted.id.id@ == "task.request.view"@,
            decreases n - i,
        {
            if str_eq(store.permission_nodes[i].id.id.as_str(), wanted.id.id.as_str()) {
                proof {
                    assert(store.permission_nodes@.contains(store.permission_nodes@[i as int]));
                }
                return ;
            }
            i = i + 1;
        }
        let node = wanted.clone();
        proof {
            let nodes = store.permission_nodes@;
            assert forall|j: int| 0 <= j < nodes.len() implies nodes.push(node).contains(
                #[trigger] nodes[j],
            ) by {
                assert(nodes.push(node)[j] == nodes[j]);
            }
            assert(nodes.push(node)[nodes.len() as int] == node);
        }
        store.permission_nodes.push(node);
    }
}

/// Whether a permission node with the given id key exists.
pub open spec fn has_permission_node(s: Seq<Permission>, id: Seq<char>) -> bool {
    exists|i: int| 0 <= i < s.len() && (#[trigger] s[i]).id.id@ == id
}

} // verus!
