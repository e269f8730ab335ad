use observ::crypto::hash_new;
use observ::forms::FormError;
use observ::models::NewUser;
use observ::store::IdentityStore;

fn new_user(
    real_name: &str,
    handle: &str,
    email: &str,
    mmost: &str,
    password: &str,
    tier: i32,
) -> NewUser {
    let (phash, psalt) = hash_new(password);
    NewUser {
        real_name: String::from(real_name),
        handle: String::from(handle),
        password_hash: phash,
        salt: psalt,
        bio: String::new(),
        email: String::from(email),
        tier,
        active: true,
        mmost: String::from(mmost),
    }
}

// Tests the addition, lookup, and deletion of a user, with the default
// group membership recorded alongside.
#[test]
fn add_user() {
    let mut store = IdentityStore::new();

    let pass = String::from("thisisapassword");
    let (phash, psalt) = hash_new(&pass);

    let nu = NewUser {
        real_name: String::from("John Doe"),
        handle: String::from("JD1"),
        password_hash: phash,
        salt: psalt,
        bio: String::from("This is a test user. Do not disturb."),
        email: String::from("doej@test-rcos.io"),
        tier: 0,
        active: true,
        mmost: String::from("JDMM"),
    };

    let id = store
        .insert(nu, 0)
        .expect("Failed to add user to database");

    let i = store
        .find_by_email("doej@test-rcos.io")
        .expect("Failed to get user from database");
    let user_id = store.get(i).id;
    assert_eq!(user_id, id);

    store.insert_relation(0, user_id);

    assert_eq!("JD1".to_string(), store.get(i).handle);

    // User deletion
    store.remove_by_id(user_id);
    assert!(store.find_by_email("doej@test-rcos.io").is_none());
}

#[test]
fn identifiers_are_assigned_in_order() {
    let mut store = IdentityStore::new();
    let a = store
        .insert(new_user("A", "ha", "a@x", "ma", "pa", 0), 1)
        .unwrap();
    let b = store
        .insert(new_user("B", "hb", "b@x", "mb", "pb", 0), 2)
        .unwrap();
    assert_eq!(a, 0);
    assert_eq!(b, 1);
    assert_eq!(store.len(), 2);
    assert_eq!(store.get(0).joined_on, 1);
    assert_eq!(store.get(1).joined_on, 2);
}

#[test]
fn duplicate_fields_are_refused_in_order() {
    let mut store = IdentityStore::new();
    store
        .insert(new_user("A", "ha", "a@x", "ma", "pa", 0), 0)
        .unwrap();
    // Same email wins over the also-duplicate handle.
    assert_eq!(
        store.insert(new_user("B", "ha", "a@x", "ma", "pb", 0), 0),
        Err(FormError::EmailExists)
    );
    assert_eq!(
        store.insert(new_user("B", "ha", "b@x", "ma", "pb", 0), 0),
        Err(FormError::GitExists)
    );
    assert_eq!(
        store.insert(new_user("B", "hb", "b@x", "ma", "pb", 0), 0),
        Err(FormError::MmostExists)
    );
    // All three distinct: admitted.
    assert!(store
        .insert(new_user("B", "hb", "b@x", "mb", "pb", 0), 0)
        .is_ok());
    assert_eq!(store.len(), 2);
}

#[test]
fn handle_lookup_ignores_ascii_case() {
    let mut store = IdentityStore::new();
    store
        .insert(new_user("A", "Alice", "a@x", "ma", "pa", 0), 0)
        .unwrap();
    assert!(store.find_by_handle_ci("ALICE").is_some());
    assert!(store.find_by_handle_ci("alice").is_some());
    assert!(store.find_by_handle_ci("alicia").is_none());
    // The exact-match lookup the constraints use stays case-sensitive.
    assert!(store.find_by_handle("alice").is_none());
    assert!(store.find_by_handle("Alice").is_some());
}

#[test]
fn deletion_cascades_group_memberships() {
    let mut store = IdentityStore::new();
    let a = store
        .insert(new_user("A", "ha", "a@x", "ma", "pa", 0), 0)
        .unwrap();
    let b = store
        .insert(new_user("B", "hb", "b@x", "mb", "pb", 0), 0)
        .unwrap();
    store.insert_relation(0, a);
    store.insert_relation(0, b);
    store.insert_relation(3, a);
    assert_eq!(store.relations_count(), 3);
    store.remove_by_id(a);
    assert!(store.find_by_id(a).is_none());
    assert!(store.find_by_id(b).is_some());
    assert_eq!(store.relations_count(), 1);
    assert_eq!(store.get_relation(0).user_id, b);
    assert_eq!(store.get_relation(0).group_id, 0);
}
