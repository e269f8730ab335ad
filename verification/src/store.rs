//! The identity store: the single point of shared mutable state.
//!
//! It stands where the relational store stood, keeps the same constraints
//! (handle, email and external-messaging handle each unique across all
//! records, identifiers assigned once and never reused within a store),
//! and exposes the lookups the workflows and guards are built on.

use vstd::prelude::*;

use crate::forms::FormError;
use crate::models::{AuditEntry, NewRelationGroupUser, NewUser, User, user_from};
use crate::strutil::{contains_ci, lower, str_eq, str_eq_ci, str_contains_ci};

verus! {

/// Some record holds this email.
pub open spec fn has_email(users: Seq<User>, e: Seq<char>) -> bool {
    exists|i: int| 0 <= i < users.len() && (#[trigger] users[i]).email@ == e
}

/// Some record holds this handle (exactly, as the store's constraint sees it).
pub open spec fn has_handle(users: Seq<User>, h: Seq<char>) -> bool {
    exists|i: int| 0 <= i < users.len() && (#[trigger] users[i]).handle@ == h
}

/// Some record holds this external-messaging handle.
pub open spec fn has_mmost(users: Seq<User>, m: Seq<char>) -> bool {
    exists|i: int| 0 <= i < users.len() && (#[trigger] users[i]).mmost@ == m
}

/// Some record holds this identifier.
pub open spec fn has_id(users: Seq<User>, id: i32) -> bool {
    exists|i: int| 0 <= i < users.len() && (#[trigger] users[i]).id == id
}

/// Some record holds this handle up to ASCII case.
pub open spec fn has_handle_ci(users: Seq<User>, h: Seq<char>) -> bool {
    exists|i: int| 0 <= i < users.len() && lower((#[trigger] users[i]).handle@) == lower(h)
}

/// The store's uniqueness constraints: no two records share an identifier,
/// an email, a handle or an external-messaging handle.
pub open spec fn unique_identity(users: Seq<User>) -> bool {
    forall|i: int, j: int|
        #![trigger users[i], users[j]]
        0 <= i < j < users.len() ==> users[i].id != users[j].id && users[i].email@
            != users[j].email@ && users[i].handle@ != users[j].handle@ && users[i].mmost@
            != users[j].mmost@
}

/// Which constraint a candidate record would violate, in the order the
/// registration workflow reports them; `None` when it can be admitted.
pub open spec fn insert_error(users: Seq<User>, nu: NewUser) -> Option<FormError> {
    if has_email(users, nu.email@) {
        Some(FormError::EmailExists)
    } else if has_handle(users, nu.handle@) {
        Some(FormError::GitExists)
    } else if has_mmost(users, nu.mmost@) {
        Some(FormError::MmostExists)
    } else {
        None
    }
}

/// The identity store.
pub struct IdentityStore {
    users: Vec<User>,
    relations: Vec<NewRelationGroupUser>,
    audit: Vec<AuditEntry>,
    next_id: i32,
}

impl IdentityStore {
    /// The identity records, in insertion order.
    pub closed spec fn users_seq(&self) -> Seq<User> {
        self.users@
    }

    /// The group-membership relations, in insertion order.
    pub closed spec fn relations_seq(&self) -> Seq<NewRelationGroupUser> {
        self.relations@
    }

    /// The audit trail, oldest first.
    pub closed spec fn audit_seq(&self) -> Seq<AuditEntry> {
        self.audit@
    }

    /// The identifier the next admitted record will receive.
    pub closed spec fn next_id_spec(&self) -> int {
        self.next_id as int
    }

    /// Well-formedness: the uniqueness constraints hold and every assigned
    /// identifier lies below the next one to be handed out.
    pub open spec fn wf(&self) -> bool {
        &&& unique_identity(self.users_seq())
        &&& forall|i: int|
            0 <= i < self.users_seq().len() ==> 0 <= (#[trigger] self.users_seq()[i]).id
                < self.next_id_spec()
        &&& 0 <= self.next_id_spec()
    }

    /// An empty store; the first admitted identity receives identifier 0,
    /// the organization's reserved root account.
    pub fn new() -> (r: IdentityStore)
        ensures
            r.wf(),
            r.users_seq() == Seq::<User>::empty(),
            r.relations_seq() == Seq::<NewRelationGroupUser>::empty(),
            r.audit_seq() == Seq::<AuditEntry>::empty(),
            r.next_id_spec() == 0,
    {
        IdentityStore { users: Vec::new(), relations: Vec::new(), audit: Vec::new(), next_id: 0 }
    }

    /// How many identity records the store holds.
    pub fn len(&self) -> (r: usize)
        ensures
            r == self.users_seq().len(),
    {
        self.users.len()
    }

    /// The record at a position, in insertion order.
    pub fn get(&self, i: usize) -> (u: &User)
        requires
            i < self.users_seq().len(),
        ensures
            *u == self.users_seq()[i as int],
    {
        &self.users[i]
    }

    /// How many group memberships the store holds.
    pub fn relations_count(&self) -> (r: usize)
        ensures
            r == self.relations_seq().len(),
    {
        self.relations.len()
    }

    /// The group membership at a position, in insertion order.
    pub fn get_relation(&self, i: usize) -> (r: NewRelationGroupUser)
        requires
            i < self.relations_seq().len(),
        ensures
            r == self.relations_seq()[i as int],
    {
        self.relations[i]
    }

    /// How many audit entries the store holds.
    pub fn audit_count(&self) -> (r: usize)
        ensures
            r == self.audit_seq().len(),
    {
        self.audit.len()
    }

    /// The audit entry at a position, oldest first.
    pub fn get_audit(&self, i: usize) -> (r: &AuditEntry)
        requires
            i < self.audit_seq().len(),
        ensures
            *r == self.audit_seq()[i as int],
    {
        &self.audit[i]
    }

    /// Position of the record with this exact email, if any.
    pub fn find_by_email(&self, email: &str) -> (r: Option<usize>)
        ensures
            match r {
                Some(i) => i < self.users_seq().len() && self.users_seq()[i as int].email@
                    == email@,
                None => !has_email(self.users_seq(), email@),
            },
    {
        let mut i: usize = 0;
        while i < self.users.len()
            invariant
                i <= self.users_seq().len(),
                forall|j: int| 0 <= j < i ==> (#[trigger] self.users_seq()[j]).email@ != email@,
            decreases self.users_seq().len() - i,
        {
            if str_eq(self.users[i].email.as_str(), email) {
                return Some(i);
            }
            i = i + 1;
        }
        None
    }

    /// Position of the record with this identifier, if any.
    pub fn find_by_id(&self, id: i32) -> (r: Option<usize>)
        ensures
            match r {
                Some(i) => i < self.users_seq().len() && self.users_seq()[i as int].id == id,
                None => !has_id(self.users_seq(), id),
            },
    {
        let mut i: usize = 0;
        while i < self.users.len()
            invariant
                i <= self.users_seq().len(),
                forall|j: int| 0 <= j < i ==> (#[trigger] self.users_seq()[j]).id != id,
            decreases self.users_seq().len() - i,
        {
            if self.users[i].id == id {
                return Some(i);
            }
            i = i + 1;
        }
        None
    }

    /// Position of the first record whose handle matches up to ASCII case,
    /// if any.
    pub fn find_by_handle_ci(&self, handle: &str) -> (r: Option<usize>)
        ensures
            match r {
                Some(i) => i < self.users_seq().len() && lower(
                    self.users_seq()[i as int].handle@,
                ) == lower(handle@) && forall|j: int|
                    0 <= j < i ==> lower((#[trigger] self.users_seq()[j]).handle@) != lower(
                        handle@,
                    ),
                None => !has_handle_ci(self.users_seq(), handle@),
            },
    {
        let mut i: usize = 0;
        while i < self.users.len()
            invariant
                i <= self.users_seq().len(),
                forall|j: int|
                    0 <= j < i ==> lower((#[trigger] self.users_seq()[j]).handle@) != lower(
                        handle@,
                    ),
            decreases self.users_seq().len() - i,
        {
            if str_eq_ci(self.users[i].handle.as_str(), handle) {
                return Some(i);
            }
            i = i + 1;
        }
        None
    }

    /// Position of the record with this exact handle, if any.
    pub fn find_by_handle(&self, handle: &str) -> (r: Option<usize>)
        ensures
            match r {
                Some(i) => i < self.users_seq().len() && self.users_seq()[i as int].handle@
                    == handle@,
                None => !has_handle(self.users_seq(), handle@),
            },
    {
        let mut i: usize = 0;
        while i < self.users.len()
            invariant
                i <= self.users_seq().len(),
                forall|j: int| 0 <= j < i ==> (#[trigger] self.users_seq()[j]).handle@ != handle@,
            decreases self.users_seq().len() - i,
        {
            if str_eq(self.users[i].handle.as_str(), handle) {
                return Some(i);
            }
            i = i + 1;
        }
        None
    }

    /// Position of the record with this exact external-messaging handle.
    pub fn find_by_mmost(&self, mmost: &str) -> (r: Option<usize>)
        ensures
            match r {
                Some(i) => i < self.users_seq().len() && self.users_seq()[i as int].mmost@
                    == mmost@,
                None => !has_mmost(self.users_seq(), mmost@),
            },
    {
        let mut i: usize = 0;
        while i < self.users.len()
            invariant
                i <= self.users_seq().len(),
                forall|j: int| 0 <= j < i ==> (#[trigger] self.users_seq()[j]).mmost@ != mmost@,
            decreases self.users_seq().len() - i,
        {
            if str_eq(self.users[i].mmost.as_str(), mmost) {
                return Some(i);
            }
            i = i + 1;
        }
        None
    }

    /// Admits a new identity record, or refuses it with the error of the
    /// first uniqueness constraint it violates; the store is unchanged on
    /// refusal. On success the record receives the next identifier and the
    /// given creation timestamp.
    pub fn insert(&mut self, nu: NewUser, now: i64) -> (r: Result<i32, FormError>)
        requires
            old(self).wf(),
            old(self).next_id_spec() < i32::MAX,
        ensures
            final(self).wf(),
            final(self).relations_seq() == old(self).relations_seq(),
            final(self).audit_seq() == old(self).audit_seq(),
            match r {
                Ok(id) => insert_error(old(self).users_seq(), nu) is None && id as int == old(
                    self,
                ).next_id_spec() && final(self).users_seq() == old(self).users_seq().push(
                    user_from(nu, id, now),
                ) && final(self).next_id_spec() == old(self).next_id_spec() + 1,
                Err(e) => insert_error(old(self).users_seq(), nu) == Some(e) && *final(self)
                    == *old(self),
            },
    {
        if self.find_by_email(nu.email.as_str()).is_some() {
            return Err(FormError::EmailExists);
        }
        if self.find_by_handle(nu.handle.as_str()).is_some() {
            return Err(FormError::GitExists);
        }
        if self.find_by_mmost(nu.mmost.as_str()).is_some() {
            return Err(FormError::MmostExists);
        }
        let id = self.next_id;
        let u = User {
            id: id,
            real_name: nu.real_name,
            handle: nu.handle,
            email: nu.email,
            password_hash: nu.password_hash,
            salt: nu.salt,
            bio: nu.bio,
            active: nu.active,
            joined_on: now,
            tier: nu.tier,
            mmost: nu.mmost,
        };
        self.users.push(u);
        self.next_id = self.next_id + 1;
        Ok(id)
    }

    /// Records a group membership.
    pub fn insert_relation(&mut self, group_id: i32, user_id: i32)
        ensures
            final(self).users_seq() == old(self).users_seq(),
            final(self).audit_seq() == old(self).audit_seq(),
            final(self).next_id_spec() == old(self).next_id_spec(),
            final(self).relations_seq() == old(self).relations_seq().push(
                NewRelationGroupUser { group_id, user_id },
            ),
            old(self).wf() ==> final(self).wf(),
    {
        self.relations.push(NewRelationGroupUser { group_id, user_id });
    }

    /// Appends an immutable entry to the audit trail.
    pub fn push_audit(&mut self, entry: AuditEntry)
        ensures
            final(self).users_seq() == old(self).users_seq(),
            final(self).relations_seq() == old(self).relations_seq(),
            final(self).next_id_spec() == old(self).next_id_spec(),
            final(self).audit_seq() == old(self).audit_seq().push(entry),
            old(self).wf() ==> final(self).wf(),
    {
        self.audit.push(entry);
    }

    /// Rewrites the record at a position. The caller vouches that the new
    /// values collide with no other record, as the store's constraints
    /// would otherwise reject the write.
    pub fn set_user(&mut self, i: usize, u: User)
        requires
            old(self).wf(),
            i < old(self).users_seq().len(),
            u.id == old(self).users_seq()[i as int].id,
            forall|j: int|
                0 <= j < old(self).users_seq().len() && j != i ==> (#[trigger] old(
                    self,
                ).users_seq()[j]).email@ != u.email@ && old(self).users_seq()[j].handle@
                    != u.handle@ && old(self).users_seq()[j].mmost@ != u.mmost@,
        ensures
            final(self).wf(),
            final(self).users_seq() == old(self).users_seq().update(i as int, u),
            final(self).relations_seq() == old(self).relations_seq(),
            final(self).audit_seq() == old(self).audit_seq(),
            final(self).next_id_spec() == old(self).next_id_spec(),
    {
        self.users[i] = u;
    }

    /// Removes the record with this identifier, if present, and cascades
    /// removal of its group memberships. Records keep their order.
    pub fn remove_by_id(&mut self, id: i32)
        requires
            old(self).wf(),
        ensures
            final(self).wf(),
            final(self).users_seq() == old(self).users_seq().filter(|u: User| u.id != id),
            final(self).relations_seq() == old(self).relations_seq().filter(
                |rel: NewRelationGroupUser| rel.user_id != id,
            ),
            final(self).audit_seq() == old(self).audit_seq(),
            final(self).next_id_spec() == old(self).next_id_spec(),
    {
        let ghost old_users = self.users@;
        let mut kept_users: Vec<User> = Vec::new();
        let mut i: usize = 0;
        while i < self.users.len()
            invariant
                i <= self.users@.len(),
                self.users@ == old_users,
                kept_users@ == old_users.take(i as int).filter(|u: User| u.id != id),
                forall|a: int|
                    0 <= a < kept_users@.len() ==> exists|k: int|
                        0 <= k < i && old_users[k] == #[trigger] kept_users@[a],
                unique_identity(old_users),
                unique_identity(kept_users@),
            decreases self.users@.len() - i,
        {
            proof {
                reveal(Seq::filter);
                assert(old_users.take(i + 1).drop_last() =~= old_users.take(i as int));
                assert(old_users.take(i + 1).last() == old_users[i as int]);
            }
            let u = self.users[i].clone();
            if u.id != id {
                let ghost prev = kept_users@;
                kept_users.push(u);
                proof {
                    assert(forall|a: int|
                        0 <= a < prev.len() ==> exists|k: int|
                            0 <= k < i && old_users[k] == #[trigger] kept_users@[a]);
                    assert(old_users[i as int] == kept_users@[kept_users@.len() - 1]);
                    assert forall|a: int, b: int|
                        #![trigger kept_users@[a], kept_users@[b]]
                        0 <= a < b < kept_users@.len() implies kept_users@[a].id
                        != kept_users@[b].id && kept_users@[a].email@ != kept_users@[b].email@
                        && kept_users@[a].handle@ != kept_users@[b].handle@
                        && kept_users@[a].mmost@ != kept_users@[b].mmost@ by {
                        if b == kept_users@.len() - 1 {
                            let k = choose|k: int|
                                0 <= k < i && old_users[k] == kept_users@[a];
                            assert(old_users[k] == kept_users@[a]);
                            assert(kept_users@[b] == old_users[i as int]);
                        } else {
                            assert(prev[a] == kept_users@[a] && prev[b] == kept_users@[b]);
                        }
                    }
                }
            }
            i = i + 1;
        }
        let ghost kept = kept_users@;
        proof {
            assert(old_users.take(old_users.len() as int) =~= old_users);
        }
        self.users = kept_users;
        proof {
            assert forall|a: int|
                0 <= a < kept.len() implies 0 <= (#[trigger] kept[a]).id
                < self.next_id as int by {
                let k = choose|k: int| 0 <= k < old_users.len() && old_users[k] == kept[a];
                assert(old_users[k] == kept[a]);
            }
        }

        let ghost old_rels = self.relations@;
        let mut kept_rels: Vec<NewRelationGroupUser> = Vec::new();
        let mut k: usize = 0;
        while k < self.relations.len()
            invariant
                k <= self.relations@.len(),
                self.relations@ == old_rels,
                kept_rels@ == old_rels.take(k as int).filter(
                    |rel: NewRelationGroupUser| rel.user_id != id,
                ),
            decreases self.relations@.len() - k,
        {
            proof {
                reveal(Seq::filter);
                assert(old_rels.take(k + 1).drop_last() =~= old_rels.take(k as int));
                assert(old_rels.take(k + 1).last() == old_rels[k as int]);
            }
            let rel = self.relations[k];
            if rel.user_id != id {
                kept_rels.push(rel);
            }
            k = k + 1;
        }
        proof {
            assert(old_rels.take(old_rels.len() as int) =~= old_rels);
        }
        self.relations = kept_rels;
    }
}

} // verus!
