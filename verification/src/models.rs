//! The durable entities of the identity subsystem.

use vstd::prelude::*;

verus! {

/// An identity record: one account in the store.
///
/// `handle`, `email` and `mmost` (the external-messaging handle) are each
/// unique across all records; the store enforces that. The identifier `0`
/// is reserved for the organization's root account. The password hash and
/// salt stay inside the credential boundary: nothing here writes them to a
/// client-facing form.
#[derive(Debug)]
pub struct User {
    /// Stable numeric identifier, assigned by the store.
    pub id: i32,
    /// Display name.
    pub real_name: String,
    /// Short globally-unique handle used for lookup and in links.
    pub handle: String,
    /// Globally-unique email address.
    pub email: String,
    /// Stored password hash.
    pub password_hash: String,
    /// Per-account random salt.
    pub salt: String,
    /// Free-text bio.
    pub bio: String,
    /// Whether the account is active.
    pub active: bool,
    /// Creation timestamp, set once at insertion and never mutated.
    pub joined_on: i64,
    /// Integer privilege tier: 0 = standard, above 1 = elevated.
    pub tier: i32,
    /// Globally-unique external-messaging handle.
    pub mmost: String,
}

impl Clone for User {
    /// An identity record copies field for field.
    fn clone(&self) -> (r: User)
        ensures
            r == *self,
    {
        User {
            id: self.id,
            real_name: self.real_name.clone(),
            handle: self.handle.clone(),
            email: self.email.clone(),
            password_hash: self.password_hash.clone(),
            salt: self.salt.clone(),
            bio: self.bio.clone(),
            active: self.active,
            joined_on: self.joined_on,
            tier: self.tier,
            mmost: self.mmost.clone(),
        }
    }
}

/// The fields a caller supplies to create or rewrite an identity record;
/// the store itself assigns the identifier and the creation timestamp.
#[derive(Debug)]
pub struct NewUser {
    pub real_name: String,
    pub handle: String,
    pub password_hash: String,
    pub salt: String,
    pub bio: String,
    pub email: String,
    pub tier: i32,
    pub active: bool,
    pub mmost: String,
}

impl Default for NewUser {
    /// All fields empty, tier 0, inactive.
    fn default() -> (r: NewUser)
        ensures
            r.real_name@ == Seq::<char>::empty(),
            r.handle@ == Seq::<char>::empty(),
            r.password_hash@ == Seq::<char>::empty(),
            r.salt@ == Seq::<char>::empty(),
            r.bio@ == Seq::<char>::empty(),
            r.email@ == Seq::<char>::empty(),
            r.tier == 0,
            r.active == false,
            r.mmost@ == Seq::<char>::empty(),
    {
        NewUser {
            real_name: String::new(),
            handle: String::new(),
            password_hash: String::new(),
            salt: String::new(),
            bio: String::new(),
            email: String::new(),
            tier: 0,
            active: false,
            mmost: String::new(),
        }
    }
}

/// The record a `User` becomes when built from caller-supplied fields, a
/// store-assigned identifier and a creation timestamp.
pub open spec fn user_from(nu: NewUser, id: i32, now: i64) -> User {
    User {
        id: id,
        real_name: nu.real_name,
        handle: nu.handle,
        email: nu.email,
        password_hash: nu.password_hash,
        salt: nu.salt,
        bio: nu.bio,
        active: nu.active,
        joined_on: now,
        tier: nu.tier,
        mmost: nu.mmost,
    }
}

/// A group membership: the join of one identity and one group, with no
/// attributes beyond the two foreign keys.
#[derive(Debug, Clone, Copy, PartialEq, Eq, Structural)]
pub struct NewRelationGroupUser {
    pub group_id: i32,
    pub user_id: i32,
}

/// The immutable record emitted when a registration succeeds, kept for
/// post-hoc review.
#[derive(Debug)]
pub struct AuditEntry {
    /// The newly admitted identity.
    pub user_id: i32,
    /// Its email at the time of registration.
    pub email: String,
    /// When the registration happened.
    pub at: i64,
}

} // verus!
