//! Identity and access-control core of a membership-management service.
//!
//! The crate models the durable identity store, the credential engine,
//! the registration and session workflows, and the tiered access guards
//! that gate every handler of the surrounding application.

pub mod auth;
pub mod crypto;
pub mod forms;
pub mod guards;
pub mod models;
pub mod store;
pub mod strutil;
pub mod users;

use vstd::prelude::*;

verus! {

/// Privilege tier above which an identity counts as elevated / admin-capable.
pub const ELEVATED_TIER: i32 = 1;

/// True exactly when a privilege tier carries administrative capability.
pub open spec fn spec_is_elevated(tier: i32) -> bool {
    tier > ELEVATED_TIER
}

/// Decides whether a privilege tier carries administrative capability.
pub fn is_elevated(tier: i32) -> (r: bool)
    ensures
        r == spec_is_elevated(tier),
{
    tier > ELEVATED_TIER
}

} // verus!
