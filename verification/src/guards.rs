//! The access-guard model, resolved once per request from the session
//! cookie before any downstream handler runs.
//!
//! The boundary layer decodes the signed cookie to a plain identity id (or
//! nothing) and hands it in; the rules deciding what that id entitles the
//! caller to live here. An unauthorized outcome becomes a redirect to the
//! login page; a forbidden outcome becomes the dedicated forbidden page.

use vstd::prelude::*;
use vstd::string::StringExecFns;

use crate::models::User;
use crate::spec_is_elevated;
use crate::store::{has_id, unique_identity, IdentityStore};

verus! {

/// The anonymous-or-identified capability: a resolved identity if the
/// cookie carried a valid one, and no error in any case.
#[derive(Debug)]
pub struct MaybeLoggedIn(pub Option<User>);

impl MaybeLoggedIn {
    /// The resolved identity, if any.
    pub fn user(self) -> (r: Option<User>)
        ensures
            r == self.0,
    {
        self.0
    }
}

/// The authenticated capability: an active, resolved identity.
#[derive(Debug)]
pub struct UserGuard(pub User);

/// The elevated capability: an active identity whose tier carries
/// administrative privilege.
#[derive(Debug)]
pub struct AdminGuard(pub User);

/// Why a guard refused the request.
#[derive(Debug, Clone, Copy, PartialEq, Eq, Structural)]
pub enum GuardError {
    /// No valid session: the boundary layer redirects to the login page.
    Unauthorized,
    /// A valid session without the required tier: the forbidden page.
    Forbidden,
}

/// Some record holds this identifier and is active.
pub open spec fn has_active_id(users: Seq<User>, id: i32) -> bool {
    exists|i: int|
        0 <= i < users.len() && (#[trigger] users[i]).id == id && users[i].active
}

/// Some active record holds this identifier and an elevated tier.
pub open spec fn has_elevated_id(users: Seq<User>, id: i32) -> bool {
    exists|i: int|
        0 <= i < users.len() && (#[trigger] users[i]).id == id && users[i].active
            && spec_is_elevated(users[i].tier)
}

/// Resolves the cookie to an identity if it names one; an absent or
/// invalid cookie yields no identity rather than an error.
pub fn maybe_logged_in(store: &IdentityStore, cookie: Option<i32>) -> (r: MaybeLoggedIn)
    requires
        store.wf(),
    ensures
        match r.0 {
            Some(u) => cookie == Some(u.id) && store.users_seq().contains(u),
            None => match cookie {
                Some(id) => !has_id(store.users_seq(), id),
                None => true,
            },
        },
        r.0 is Some <==> (cookie matches Some(id) && has_id(store.users_seq(), id)),
{
    match cookie {
        None => MaybeLoggedIn(None),
        Some(id) => match store.find_by_id(id) {
            None => MaybeLoggedIn(None),
            Some(i) => MaybeLoggedIn(Some(store.get(i).clone())),
        },
    }
}

/// Requires a session resolving to an active identity; anything less is
/// unauthorized.
pub fn user_guard(store: &IdentityStore, cookie: Option<i32>) -> (r: Result<
    UserGuard,
    GuardError,
>)
    requires
        store.wf(),
    ensures
        match r {
            Ok(g) => cookie == Some(g.0.id) && store.users_seq().contains(g.0) && g.0.active,
            Err(e) => e == GuardError::Unauthorized,
        },
        r is Ok <==> (cookie matches Some(id) && has_active_id(store.users_seq(), id)),
{
    match cookie {
        None => Err(GuardError::Unauthorized),
        Some(id) => match store.find_by_id(id) {
            None => Err(GuardError::Unauthorized),
            Some(i) => {
                let u = store.get(i);
                if u.active {
                    Ok(UserGuard(u.clone()))
                } else {
                    proof {
                        assert forall|j: int|
                            !(0 <= j < store.users_seq().len()
                                && (#[trigger] store.users_seq()[j]).id == id
                                && store.users_seq()[j].active) by {
                            if 0 <= j < store.users_seq().len() && store.users_seq()[j].id == id {
                                assert(unique_identity(store.users_seq()));
                                assert(store.users_seq()[j] == store.users_seq()[i as int]);
                            }
                        }
                    }
                    Err(GuardError::Unauthorized)
                }
            },
        },
    }
}

/// Requires an authenticated identity whose tier carries administrative
/// privilege; an authenticated identity without it is forbidden, anything
/// less is unauthorized.
pub fn admin_guard(store: &IdentityStore, cookie: Option<i32>) -> (r: Result<
    AdminGuard,
    GuardError,
>)
    requires
        store.wf(),
    ensures
        match r {
            Ok(g) => cookie == Some(g.0.id) && store.users_seq().contains(g.0) && g.0.active
                && spec_is_elevated(g.0.tier),
            Err(e) => true,
        },
        r is Ok <==> (cookie matches Some(id) && has_elevated_id(store.users_seq(), id)),
        r == Err::<AdminGuard, GuardError>(GuardError::Unauthorized) <==> !(cookie matches Some(
            id,
        ) && has_active_id(store.users_seq(), id)),
        r == Err::<AdminGuard, GuardError>(GuardError::Forbidden) <==> (cookie matches Some(id)
            && has_active_id(store.users_seq(), id) && !has_elevated_id(store.users_seq(), id)),
{
    match user_guard(store, cookie) {
        Err(e) => Err(GuardError::Unauthorized),
        Ok(g) => {
            let UserGuard(u) = g;
            if crate::is_elevated(u.tier) {
                proof {
                    let users = store.users_seq();
                    let k = choose|k: int| 0 <= k < users.len() && users[k] == u;
                    assert(users[k].id == u.id && users[k].active && spec_is_elevated(
                        users[k].tier,
                    ));
                }
                Ok(AdminGuard(u))
            } else {
                proof {
                    let users = store.users_seq();
                    let k = choose|k: int| 0 <= k < users.len() && users[k] == u;
                    assert forall|j: int|
                        !(0 <= j < users.len() && (#[trigger] users[j]).id == u.id
                            && users[j].active && spec_is_elevated(users[j].tier)) by {
                        if 0 <= j < users.len() && users[j].id == u.id {
                            assert(unique_identity(users));
                            assert(users[j] == users[k]);
                        }
                    }
                }
                Err(GuardError::Forbidden)
            }
        },
    }
}

/// The redirect an unauthenticated request to a protected path receives:
/// the login page, carrying the original path as the post-login target.
pub fn catch_401(path: &str) -> (r: String)
    ensures
        r@ == "/login?to="@ + path@,
{
    String::from_str("/login?to=").concat(path)
}

} // verus!
