use observ::auth::{login_post, CookieAction, LogInForm};
use observ::crypto::hash_new;
use observ::guards::{admin_guard, user_guard, GuardError};
use observ::models::NewUser;
use observ::store::IdentityStore;
use observ::users::{edituser, edituser_put, filter_users, user, user_by_handle, user_delete};

fn seed(store: &mut IdentityStore, name: &str, handle: &str, email: &str, mmost: &str, tier: i32) -> i32 {
    let (phash, psalt) = hash_new("pw");
    let nu = NewUser {
        real_name: String::from(name),
        handle: String::from(handle),
        password_hash: phash,
        salt: psalt,
        bio: String::new(),
        email: String::from(email),
        tier,
        active: true,
        mmost: String::from(mmost),
    };
    store.insert(nu, 0).unwrap()
}

fn edit_payload(store: &IdentityStore, id: i32, tier: i32, password: &str) -> NewUser {
    let i = store.find_by_id(id).unwrap();
    let u = store.get(i);
    NewUser {
        real_name: u.real_name.clone(),
        handle: u.handle.clone(),
        password_hash: String::from(password),
        salt: String::new(),
        bio: u.bio.clone(),
        email: u.email.clone(),
        tier,
        active: u.active,
        mmost: u.mmost.clone(),
    }
}

#[test]
fn lookup_by_id_and_by_handle() {
    let mut store = IdentityStore::new();
    let alice = seed(&mut store, "Alice", "alice", "a@x", "al", 0);
    assert_eq!(user(&store, alice).unwrap().email, "a@x");
    assert!(user(&store, 99).is_none());
    assert_eq!(user_by_handle(&store, "ALICE").unwrap(), "/users/0");
    assert!(user_by_handle(&store, "nobody").is_none());
}

#[test]
fn the_edit_page_shows_the_record_to_an_authenticated_viewer() {
    let mut store = IdentityStore::new();
    let alice = seed(&mut store, "Alice", "alice", "a@x", "al", 0);
    let g = user_guard(&store, Some(alice)).unwrap();
    let page = edituser(&store, g, alice).unwrap();
    assert_eq!(page.user.handle, "alice");
    assert_eq!(page.logged_in.unwrap().id, alice);
    let g2 = user_guard(&store, Some(alice)).unwrap();
    assert!(edituser(&store, g2, 99).is_none());
}

#[test]
fn the_root_identitys_tier_survives_a_non_elevated_edit() {
    let mut store = IdentityStore::new();
    // The first admitted identity is the reserved root account, id 0.
    let root = seed(&mut store, "Root", "root", "r@x", "ro", 0);
    assert_eq!(root, 0);
    let editor_i = store.find_by_id(root).unwrap();
    let editor = store.get(editor_i).clone();
    // A self-edit by the non-elevated root asking for tier 5.
    let payload = edit_payload(&store, root, 5, "");
    let r = edituser_put(&mut store, &editor, root, payload);
    assert!(r.is_ok());
    let after = store.get(store.find_by_id(root).unwrap()).tier;
    assert_eq!(after, 0);
}

#[test]
fn the_root_identitys_tier_survives_even_an_elevated_edit() {
    let mut store = IdentityStore::new();
    let root = seed(&mut store, "Root", "root", "r@x", "ro", 0);
    let admin = seed(&mut store, "Admin", "admin", "ad@x", "ad", 2);
    let editor = store.get(store.find_by_id(admin).unwrap()).clone();
    let payload = edit_payload(&store, root, 5, "");
    let r = edituser_put(&mut store, &editor, root, payload);
    assert!(r.is_ok());
    assert_eq!(store.get(store.find_by_id(root).unwrap()).tier, 0);
}

#[test]
fn an_elevated_identity_can_raise_another_identitys_tier() {
    let mut store = IdentityStore::new();
    let _root = seed(&mut store, "Root", "root", "r@x", "ro", 0);
    let admin = seed(&mut store, "Admin", "admin", "ad@x", "ad", 2);
    let bob = seed(&mut store, "Bob", "bob", "b@x", "bo", 0);
    let editor = store.get(store.find_by_id(admin).unwrap()).clone();
    let payload = edit_payload(&store, bob, 2, "");
    let r = edituser_put(&mut store, &editor, bob, payload);
    assert_eq!(r.unwrap(), "/users/bob");
    assert_eq!(store.get(store.find_by_id(bob).unwrap()).tier, 2);
}

#[test]
fn a_non_elevated_stranger_cannot_edit_another_identity() {
    let mut store = IdentityStore::new();
    let _root = seed(&mut store, "Root", "root", "r@x", "ro", 0);
    let bob = seed(&mut store, "Bob", "bob", "b@x", "bo", 0);
    let carol = seed(&mut store, "Carol", "carol", "c@x", "ca", 0);
    let editor = store.get(store.find_by_id(carol).unwrap()).clone();
    let payload = edit_payload(&store, bob, 0, "");
    let r = edituser_put(&mut store, &editor, bob, payload);
    assert_eq!(r.unwrap_err(), GuardError::Unauthorized);
    let bob_tier_change = edit_payload(&store, bob, 9, "");
    let r2 = edituser_put(&mut store, &editor, bob, bob_tier_change);
    assert!(r2.is_err());
    assert_eq!(store.get(store.find_by_id(bob).unwrap()).tier, 0);
}

#[test]
fn an_empty_password_field_keeps_the_stored_credentials() {
    let mut store = IdentityStore::new();
    let alice = seed(&mut store, "Alice", "alice", "a@x", "al", 0);
    let editor = store.get(store.find_by_id(alice).unwrap()).clone();
    let payload = edit_payload(&store, alice, 0, "");
    edituser_put(&mut store, &editor, alice, payload).unwrap();
    // The original password still logs in.
    let creds = LogInForm {
        email: String::from("a@x"),
        password: String::from("pw"),
    };
    assert_eq!(login_post(&store, creds, None).cookie, CookieAction::Issue(alice));
}

#[test]
fn a_new_password_field_rehashes_under_a_fresh_salt() {
    let mut store = IdentityStore::new();
    let alice = seed(&mut store, "Alice", "alice", "a@x", "al", 0);
    let old_salt = store.get(0).salt.clone();
    let editor = store.get(store.find_by_id(alice).unwrap()).clone();
    let payload = edit_payload(&store, alice, 0, "newpw");
    edituser_put(&mut store, &editor, alice, payload).unwrap();
    assert_ne!(store.get(0).salt, old_salt);
    let old_creds = LogInForm {
        email: String::from("a@x"),
        password: String::from("pw"),
    };
    assert_eq!(login_post(&store, old_creds, None).cookie, CookieAction::Keep);
    let new_creds = LogInForm {
        email: String::from("a@x"),
        password: String::from("newpw"),
    };
    assert_eq!(login_post(&store, new_creds, None).cookie, CookieAction::Issue(alice));
}

#[test]
fn deletion_is_gated_on_the_elevated_guard() {
    let mut store = IdentityStore::new();
    let _root = seed(&mut store, "Root", "root", "r@x", "ro", 2);
    let bob = seed(&mut store, "Bob", "bob", "b@x", "bo", 0);
    store.insert_relation(0, bob);
    let guard = admin_guard(&store, Some(0)).unwrap();
    let loc = user_delete(&mut store, &guard, bob);
    assert_eq!(loc, "/users");
    assert!(store.find_by_id(bob).is_none());
    assert_eq!(store.relations_count(), 0);
}

#[test]
fn the_listing_filters_by_name_email_and_handle() {
    let mut store = IdentityStore::new();
    seed(&mut store, "Alice Liddell", "alice", "alice@x", "al", 0);
    seed(&mut store, "Bob Stone", "bob", "bob@x", "bo", 0);
    seed(&mut store, "Carol Alicedotter", "carol", "c@x", "ca", 0);

    let all = filter_users(&store, None);
    assert_eq!(all.len(), 3);

    let hits = filter_users(&store, Some(String::from("ALICE")));
    assert_eq!(hits.len(), 2);
    assert_eq!(hits[0].handle, "alice");
    assert_eq!(hits[1].handle, "carol");

    let by_email = filter_users(&store, Some(String::from("bob@")));
    assert_eq!(by_email.len(), 1);
    assert_eq!(by_email[0].real_name, "Bob Stone");

    let none = filter_users(&store, Some(String::from("zzz")));
    assert!(none.is_empty());
}
