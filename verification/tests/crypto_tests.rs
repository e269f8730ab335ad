use observ::crypto::{gen_salt, hash_new, hash_password, hex_encode, verify_password};

#[test]
fn hashing_is_deterministic() {
    let a = hash_password("hunter2", "somesalt");
    let b = hash_password("hunter2", "somesalt");
    assert_eq!(a, b);
    assert_eq!(a.len(), 64);
}

#[test]
fn hash_matches_published_vector() {
    // PBKDF2-HMAC-SHA-256, 4096 iterations, password "password", salt
    // "salt": the derived key begins c5e478d59288c841aa530db6845c4c8d.
    let h = hash_password("password", "salt");
    assert!(h.starts_with("c5e478d59288c841aa530db6845c4c8d962893a0"));
    assert_eq!(h.len(), 64);
}

#[test]
fn verify_accepts_the_right_password() {
    let (hash, salt) = hash_new("thisisapassword");
    assert!(verify_password("thisisapassword", &hash, &salt));
}

#[test]
fn verify_rejects_a_wrong_password() {
    let (hash, salt) = hash_new("thisisapassword");
    assert!(!verify_password("thisisapassword2", &hash, &salt));
    assert!(!verify_password("", &hash, &salt));
}

#[test]
fn verify_rejects_a_wrong_salt() {
    let salt = String::from("one-salt");
    let hash = hash_password("pw", &salt);
    assert!(!verify_password("pw", &hash, "other-salt"));
    assert!(verify_password("pw", &hash, &salt));
}

#[test]
fn salts_are_fresh_and_sized() {
    let s1 = gen_salt();
    let s2 = gen_salt();
    assert_eq!(s1.len(), 32);
    assert_eq!(s2.len(), 32);
    // 128 random bits: two draws colliding would point at a broken generator.
    assert_ne!(s1, s2);
}

#[test]
fn hex_encoding_is_exact() {
    assert_eq!(hex_encode(&vec![]), "");
    assert_eq!(hex_encode(&vec![0x00u8, 0xff, 0x10, 0xab]), "00ff10ab");
    assert_eq!(hex_encode(&vec![0x5au8]), "5a");
}
