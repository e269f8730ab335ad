//! Handlers over identity records: profile lookup, the authenticated edit
//! operation with its tier rules, deletion, and the search listing.

use vstd::prelude::*;
use vstd::string::StringExecFns;

use crate::crypto::{gen_salt, hash_password, spec_hash};
use crate::guards::{AdminGuard, GuardError, UserGuard};
use crate::models::{NewUser, User};
use crate::spec_is_elevated;
use crate::store::{has_handle_ci, has_id, unique_identity, IdentityStore};
use crate::strutil::{contains_ci, dec_digits, lower, str_contains_ci, u32_to_dec};

verus! {

/// Looks an identity up by its numeric identifier, as the profile page
/// does.
pub fn user(store: &IdentityStore, h: i32) -> (r: Option<User>)
    requires
        store.wf(),
    ensures
        match r {
            Some(u) => u.id == h && store.users_seq().contains(u),
            None => !has_id(store.users_seq(), h),
        },
        r is Some <==> has_id(store.users_seq(), h),
{
    match store.find_by_id(h) {
        None => None,
        Some(i) => Some(store.get(i).clone()),
    }
}

/// Looks an identity up by handle, ignoring ASCII case, and redirects to
/// its numeric profile page.
pub fn user_by_handle(store: &IdentityStore, h: &str) -> (r: Option<String>)
    requires
        store.wf(),
    ensures
        match r {
            Some(loc) => exists|i: int|
                0 <= i < store.users_seq().len() && lower(
                    (#[trigger] store.users_seq()[i]).handle@,
                ) == lower(h@) && loc@ == "/users/"@ + dec_digits(
                    store.users_seq()[i].id as nat,
                ),
            None => !has_handle_ci(store.users_seq(), h@),
        },
        r is Some <==> has_handle_ci(store.users_seq(), h@),
{
    match store.find_by_handle_ci(h) {
        None => None,
        Some(i) => {
            let u = store.get(i);
            let loc = String::from_str("/users/").concat(u32_to_dec(u.id as u32).as_str());
            Some(loc)
        },
    }
}

/// The data the edit-profile page renders: the authenticated viewer and
/// the record under edit.
pub struct EditUserTemplate {
    pub logged_in: Option<User>,
    pub user: User,
}

/// Assembles the edit-profile page for an authenticated viewer, if the
/// record exists.
pub fn edituser(store: &IdentityStore, l: UserGuard, h: i32) -> (r: Option<EditUserTemplate>)
    requires
        store.wf(),
    ensures
        match r {
            Some(t) => t.user.id == h && store.users_seq().contains(t.user) && t.logged_in
                == Some(l.0),
            None => !has_id(store.users_seq(), h),
        },
{
    match store.find_by_id(h) {
        None => None,
        Some(i) => Some(EditUserTemplate { logged_in: Some(l.0), user: store.get(i).clone() }),
    }
}

/// Handles an authenticated edit of the record with identifier `h`,
/// submitted by the identity `l`.
///
/// An identity may edit its own record, and an elevated identity may edit
/// any; anyone else is unauthorized and the store is untouched. An empty
/// password field keeps the stored hash and salt; a non-empty one is
/// hashed under a fresh salt. The tier is rewritten only when the editor
/// is elevated and the target is not identity 0; identity 0's tier never
/// changes here, whatever the payload asks.
///
/// The caller vouches that the target exists and that the new email,
/// handle and external handle collide with no other record, as the store
/// would otherwise reject the write.
pub fn edituser_put(store: &mut IdentityStore, l: &User, h: i32, edituser: NewUser) -> (r: Result<
    String,
    GuardError,
>)
    requires
        old(store).wf(),
        has_id(old(store).users_seq(), h),
        forall|j: int|
            0 <= j < old(store).users_seq().len() && (#[trigger] old(store).users_seq()[j]).id != h
                ==> old(store).users_seq()[j].email@ != edituser.email@ && old(
                store,
            ).users_seq()[j].handle@ != edituser.handle@ && old(store).users_seq()[j].mmost@
                != edituser.mmost@,
    ensures
        final(store).wf(),
        final(store).relations_seq() == old(store).relations_seq(),
        final(store).audit_seq() == old(store).audit_seq(),
        final(store).next_id_spec() == old(store).next_id_spec(),
        r is Ok <==> (spec_is_elevated(l.tier) || l.id == h),
        match r {
            Err(e) => e == GuardError::Unauthorized && *final(store) == *old(store),
            Ok(loc) => {
                &&& loc@ == "/users/"@ + edituser.handle@
                &&& final(store).users_seq().len() == old(store).users_seq().len()
                &&& forall|j: int|
                    0 <= j < old(store).users_seq().len() && (#[trigger] old(
                        store,
                    ).users_seq()[j]).id != h ==> final(store).users_seq()[j] == old(
                        store,
                    ).users_seq()[j]
                &&& forall|j: int|
                    0 <= j < old(store).users_seq().len() && (#[trigger] old(
                        store,
                    ).users_seq()[j]).id == h ==> {
                        let ou = old(store).users_seq()[j];
                        let nu = final(store).users_seq()[j];
                        &&& nu.id == h
                        &&& nu.real_name@ == edituser.real_name@
                        &&& nu.handle@ == edituser.handle@
                        &&& nu.email@ == edituser.email@
                        &&& nu.bio@ == edituser.bio@
                        &&& nu.mmost@ == edituser.mmost@
                        &&& nu.active == edituser.active
                        &&& nu.joined_on == ou.joined_on
                        &&& nu.tier == (if !spec_is_elevated(l.tier) || h == 0 {
                            ou.tier
                        } else {
                            edituser.tier
                        })
                        &&& (edituser.password_hash@.len() == 0 ==> nu.password_hash
                            == ou.password_hash && nu.salt == ou.salt)
                        &&& (edituser.password_hash@.len() != 0 ==> nu.salt@.len() == 32
                            && nu.password_hash@ == spec_hash(edituser.password_hash@, nu.salt@))
                    }
            },
        },
{
    let idx = match store.find_by_id(h) {
        Some(i) => i,
        None => {
            proof {
                assert(false);
            }
            0
        },
    };
    let target = store.get(idx);
    let esalt = target.salt.clone();
    let ephash = target.password_hash.clone();
    let etier = target.tier;
    let ejoined = target.joined_on;

    if crate::is_elevated(l.tier) || l.id == h {
        let (new_hash, new_salt) = if edituser.password_hash.as_str().is_empty() {
            (ephash, esalt)
        } else {
            let s = gen_salt();
            let p = hash_password(edituser.password_hash.as_str(), s.as_str());
            (p, s)
        };
        let new_tier = if !crate::is_elevated(l.tier) || h == 0 {
            etier
        } else {
            edituser.tier
        };
        let handle_copy = edituser.handle.clone();
        let u = User {
            id: h,
            real_name: edituser.real_name,
            handle: edituser.handle,
            email: edituser.email,
            password_hash: new_hash,
            salt: new_salt,
            bio: edituser.bio,
            active: edituser.active,
            joined_on: ejoined,
            tier: new_tier,
            mmost: edituser.mmost,
        };
        proof {
            assert forall|j: int|
                0 <= j < old(store).users_seq().len() && j != idx implies (#[trigger] old(
                store,
            ).users_seq()[j]).id != h by {
                assert(unique_identity(old(store).users_seq()));
                assert(old(store).users_seq()[idx as int].id == h);
            }
        }
        store.set_user(idx, u);
        Ok(String::from_str("/users/").concat(handle_copy.as_str()))
    } else {
        Err(GuardError::Unauthorized)
    }
}

/// Deletes the record with identifier `h` — an operation reserved to an
/// elevated identity, which the guard argument attests — and cascades
/// removal of its group memberships, then redirects to the listing.
pub fn user_delete(store: &mut IdentityStore, _l: &AdminGuard, h: i32) -> (r: String)
    requires
        old(store).wf(),
    ensures
        final(store).wf(),
        final(store).users_seq() == old(store).users_seq().filter((|u: User| u.id != h)),
        final(store).relations_seq() == old(store).relations_seq().filter(
            (|rel: crate::models::NewRelationGroupUser| rel.user_id != h),
        ),
        final(store).audit_seq() == old(store).audit_seq(),
        final(store).next_id_spec() == old(store).next_id_spec(),
        r@ == "/users"@,
{
    store.remove_by_id(h);
    String::from_str("/users")
}

/// Whether a record matches a search term: the term occurs in its display
/// name, email or handle, ignoring ASCII case.
pub open spec fn user_matches(u: User, t: Seq<char>) -> bool {
    contains_ci(u.real_name@, t) || contains_ci(u.email@, t) || contains_ci(u.handle@, t)
}

/// Lists the records matching a search term, in store order; without a
/// term, all of them.
pub fn filter_users(store: &IdentityStore, term: Option<String>) -> (r: Vec<User>)
    ensures
        match term {
            Some(t) => r@ == store.users_seq().filter((|u: User| user_matches(u, t@))),
            None => r@ == store.users_seq(),
        },
{
    match term {
        None => {
            let mut out: Vec<User> = Vec::new();
            let mut i: usize = 0;
            while i < store.len()
                invariant
                    i <= store.users_seq().len(),
                    out@ == store.users_seq().take(i as int),
                decreases store.users_seq().len() - i,
            {
                out.push(store.get(i).clone());
                proof {
                    assert(out@ =~= store.users_seq().take(i + 1));
                }
                i = i + 1;
            }
            proof {
                assert(store.users_seq().take(store.users_seq().len() as int)
                    =~= store.users_seq());
            }
            out
        },
        Some(t) => {
            let mut out: Vec<User> = Vec::new();
            let mut i: usize = 0;
            while i < store.len()
                invariant
                    i <= store.users_seq().len(),
                    out@ == store.users_seq().take(i as int).filter(
                        (|u: User| user_matches(u, t@)),
                    ),
                decreases store.users_seq().len() - i,
            {
                let u = store.get(i);
                proof {
                    reveal(Seq::filter);
                    assert(store.users_seq().take(i + 1).drop_last() =~= store.users_seq().take(
                        i as int,
                    ));
                    assert(store.users_seq().take(i + 1).last() == store.users_seq()[i as int]);
                }
                if str_contains_ci(u.real_name.as_str(), t.as_str()) || str_contains_ci(
                    u.email.as_str(),
                    t.as_str(),
                ) || str_contains_ci(u.handle.as_str(), t.as_str()) {
                    out.push(u.clone());
                }
                i = i + 1;
            }
            proof {
                assert(store.users_seq().take(store.users_seq().len() as int)
                    =~= store.users_seq());
            }
            out
        },
    }
}

} // verus!
