use observ::crypto::hash_new;
use observ::guards::{admin_guard, catch_401, maybe_logged_in, user_guard, GuardError};
use observ::models::NewUser;
use observ::store::IdentityStore;

fn seed(store: &mut IdentityStore, handle: &str, email: &str, mmost: &str, tier: i32, active: bool) -> i32 {
    let (phash, psalt) = hash_new("pw");
    let nu = NewUser {
        real_name: String::from(handle),
        handle: String::from(handle),
        password_hash: phash,
        salt: psalt,
        bio: String::new(),
        email: String::from(email),
        tier,
        active,
        mmost: String::from(mmost),
    };
    store.insert(nu, 0).unwrap()
}

#[test]
fn an_absent_or_invalid_cookie_yields_no_identity() {
    let mut store = IdentityStore::new();
    seed(&mut store, "alice", "a@x", "al", 0, true);
    assert!(maybe_logged_in(&store, None).user().is_none());
    assert!(maybe_logged_in(&store, Some(99)).user().is_none());
    let resolved = maybe_logged_in(&store, Some(0)).user();
    assert_eq!(resolved.unwrap().handle, "alice");
}

#[test]
fn the_authenticated_guard_requires_an_active_session() {
    let mut store = IdentityStore::new();
    let alice = seed(&mut store, "alice", "a@x", "al", 0, true);
    let bob = seed(&mut store, "bob", "b@x", "bo", 0, false);
    assert_eq!(user_guard(&store, None).unwrap_err(), GuardError::Unauthorized);
    assert_eq!(
        user_guard(&store, Some(99)).unwrap_err(),
        GuardError::Unauthorized
    );
    // An inactive identity does not authenticate.
    assert_eq!(
        user_guard(&store, Some(bob)).unwrap_err(),
        GuardError::Unauthorized
    );
    let g = user_guard(&store, Some(alice)).unwrap();
    assert_eq!(g.0.id, alice);
}

#[test]
fn the_elevated_guard_distinguishes_forbidden_from_unauthorized() {
    let mut store = IdentityStore::new();
    let standard = seed(&mut store, "alice", "a@x", "al", 0, true);
    let tier_one = seed(&mut store, "bob", "b@x", "bo", 1, true);
    let admin = seed(&mut store, "root", "r@x", "ro", 2, true);
    assert_eq!(
        admin_guard(&store, None).unwrap_err(),
        GuardError::Unauthorized
    );
    assert_eq!(
        admin_guard(&store, Some(standard)).unwrap_err(),
        GuardError::Forbidden
    );
    // Tier 1 is not above the elevation threshold.
    assert_eq!(
        admin_guard(&store, Some(tier_one)).unwrap_err(),
        GuardError::Forbidden
    );
    let g = admin_guard(&store, Some(admin)).unwrap();
    assert_eq!(g.0.id, admin);
}

#[test]
fn unauthenticated_requests_are_sent_to_login_with_their_path() {
    assert_eq!(catch_401("/dashboard"), "/login?to=/dashboard");
    assert_eq!(catch_401("/"), "/login?to=/");
}
