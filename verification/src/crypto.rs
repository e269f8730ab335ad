//! The credential engine: salt generation, password hashing, verification.
//!
//! The key derivation itself is done by an outside, purpose-built slow hash
//! (PBKDF2 with HMAC-SHA-256); its output is named, not restated, and the
//! hex encoding and comparison around it are verified. Plaintext passwords
//! pass through here only as borrowed arguments and are never stored.

use vstd::prelude::*;
use vstd::string::StrSliceExecFns;
use vstd::string::StringExecFns;

use crate::strutil::str_eq;

verus! {

/// Iteration count of the key derivation; chosen once for the whole store,
/// so stored hashes stay verifiable.
pub const KDF_ROUNDS: u32 = 4096;

/// The 32-byte key that the outside key-derivation function returns for a
/// password, a salt and an iteration count. It depends on its arguments
/// alone, so the same inputs always name the same bytes.
pub uninterp spec fn kdf_of(password: Seq<char>, salt: Seq<char>, rounds: int) -> Seq<u8>;

/// Relies on `pbkdf2::pbkdf2_hmac` with `sha2::Sha256`: derives a key of
/// the buffer's length (32 bytes here) from the password and salt bytes,
/// deterministically in its arguments.
#[verifier::external_body]
fn pbkdf2_bytes(password: &str, salt: &str, rounds: u32) -> (r: Vec<u8>)
    ensures
        r@ == kdf_of(password@, salt@, rounds as int),
        r@.len() == 32,
{
    let mut buf = vec![0u8; 32];
    pbkdf2::pbkdf2_hmac::<sha2::Sha256>(password.as_bytes(), salt.as_bytes(), rounds, &mut buf);
    buf
}

/// Relies on `rand::fill`: fills a buffer of the requested length with
/// bytes from the thread-local cryptographically secure generator. Nothing
/// is assumed about the values drawn.
#[verifier::external_body]
fn random_bytes(n: usize) -> (r: Vec<u8>)
    ensures
        r@.len() == n as int,
{
    let mut buf = vec![0u8; n];
    rand::fill(&mut buf[..]);
    buf
}

/// The lower-case hex digit for a value below sixteen.
pub open spec fn hex_digit(d: int) -> char {
    ((if d < 10 {
        48 + d
    } else {
        87 + d
    }) as u8) as char
}

/// Lower-case hex notation of a byte string, two digits per byte.
pub open spec fn hex_of(b: Seq<u8>) -> Seq<char>
    decreases b.len(),
{
    if b.len() == 0 {
        Seq::<char>::empty()
    } else {
        hex_of(b.drop_last()).push(hex_digit(b.last() as int / 16)).push(
            hex_digit(b.last() as int % 16),
        )
    }
}

/// Hex strings are twice as long as the bytes they write out.
pub proof fn lemma_hex_of_len(b: Seq<u8>)
    ensures
        hex_of(b).len() == 2 * b.len(),
    decreases b.len(),
{
    if b.len() > 0 {
        lemma_hex_of_len(b.drop_last());
    }
}

/// A one-character string holding the hex digit for `d`.
fn hex_digit_str(d: u8) -> (r: String)
    requires
        d < 16,
    ensures
        r@ =~= seq![hex_digit(d as int)],
{
    let r = match d {
        0 => String::from_str("0"),
        1 => String::from_str("1"),
        2 => String::from_str("2"),
        3 => String::from_str("3"),
        4 => String::from_str("4"),
        5 => String::from_str("5"),
        6 => String::from_str("6"),
        7 => String::from_str("7"),
        8 => String::from_str("8"),
        9 => String::from_str("9"),
        10 => String::from_str("a"),
        11 => String::from_str("b"),
        12 => String::from_str("c"),
        13 => String::from_str("d"),
        14 => String::from_str("e"),
        _ => String::from_str("f"),
    };
    proof {
        reveal_strlit("0");
        reveal_strlit("1");
        reveal_strlit("2");
        reveal_strlit("3");
        reveal_strlit("4");
        reveal_strlit("5");
        reveal_strlit("6");
        reveal_strlit("7");
        reveal_strlit("8");
        reveal_strlit("9");
        reveal_strlit("a");
        reveal_strlit("b");
        reveal_strlit("c");
        reveal_strlit("d");
        reveal_strlit("e");
        reveal_strlit("f");
    }
    r
}

/// Writes a byte string in lower-case hex, two digits per byte.
pub fn hex_encode(bytes: &Vec<u8>) -> (r: String)
    ensures
        r@ == hex_of(bytes@),
{
    let mut acc = String::new();
    let mut i: usize = 0;
    while i < bytes.len()
        invariant
            i <= bytes@.len(),
            acc@ == hex_of(bytes@.take(i as int)),
        decreases bytes@.len() - i,
    {
        let b = bytes[i];
        let hi = hex_digit_str(b / 16);
        let lo = hex_digit_str(b % 16);
        proof {
            let t = bytes@.take(i + 1);
            assert(t.drop_last() =~= bytes@.take(i as int));
            assert(t.last() == bytes@[i as int]);
            assert(hex_of(t) =~= hex_of(bytes@.take(i as int)).push(
                hex_digit(bytes@[i as int] as int / 16),
            ).push(hex_digit(bytes@[i as int] as int % 16)));
            assert(acc@ + hi@ + lo@ =~= hex_of(t));
        }
        acc.append(hi.as_str());
        acc.append(lo.as_str());
        i = i + 1;
    }
    proof {
        assert(bytes@.take(bytes@.len() as int) =~= bytes@);
    }
    acc
}

/// The stored hash of a password under a salt: the hex notation of the
/// derived 32-byte key.
pub open spec fn spec_hash(password: Seq<char>, salt: Seq<char>) -> Seq<char> {
    hex_of(kdf_of(password, salt, KDF_ROUNDS as int))
}

/// Whether a candidate password passes verification against a stored hash
/// and salt: the recomputed hash equals the stored one.
pub open spec fn spec_verify(candidate: Seq<char>, hash: Seq<char>, salt: Seq<char>) -> bool {
    hash == spec_hash(candidate, salt)
}

/// Hashes a password under a given salt; deterministic in its inputs.
pub fn hash_password(password: &str, salt: &str) -> (r: String)
    ensures
        r@ == spec_hash(password@, salt@),
        r@.len() == 64,
{
    let key = pbkdf2_bytes(password, salt, KDF_ROUNDS);
    proof {
        lemma_hex_of_len(key@);
    }
    hex_encode(&key)
}

/// Produces a fresh random per-account salt, written as 32 hex characters.
/// Nothing ties one call's result to another's.
pub fn gen_salt() -> (r: String)
    ensures
        r@.len() == 32,
{
    let bytes = random_bytes(16);
    proof {
        lemma_hex_of_len(bytes@);
    }
    hex_encode(&bytes)
}

/// Hashes a password under a fresh salt and hands both back, as the
/// registration workflow needs them.
pub fn hash_new(password: &str) -> (r: (String, String))
    ensures
        r.0@ == spec_hash(password@, r.1@),
        r.1@.len() == 32,
{
    let salt = gen_salt();
    let hash = hash_password(password, salt.as_str());
    (hash, salt)
}

/// String equality that examines every character position of equally long
/// inputs, so the time taken does not depend on where a mismatch sits.
fn ct_str_eq(a: &str, b: &str) -> (r: bool)
    ensures
        r == (a@ == b@),
{
    let la = a.unicode_len();
    let lb = b.unicode_len();
    if la != lb {
        return false;
    }
    let mut ok = true;
    let mut i: usize = 0;
    while i < la
        invariant
            la == a@.len(),
            la == b@.len(),
            i <= la,
            ok == (forall|j: int| 0 <= j < i ==> a@[j] == b@[j]),
        decreases la - i,
    {
        let same = a.get_char(i) == b.get_char(i);
        ok = ok && same;
        i = i + 1;
    }
    proof {
        if ok {
            assert(a@ =~= b@);
        }
    }
    ok
}

/// Recomputes the hash of the candidate under the stored salt and compares
/// it against the stored hash, position by position.
pub fn verify_password(candidate: &str, hash: &str, salt: &str) -> (r: bool)
    ensures
        r == spec_verify(candidate@, hash@, salt@),
{
    let computed = hash_password(candidate, salt);
    ct_str_eq(hash, computed.as_str())
}

/// A password always verifies against its own hash and salt.
pub proof fn lemma_verify_own_hash(p: Seq<char>, s: Seq<char>)
    ensures
        spec_verify(p, spec_hash(p, s), s),
{
}

/// Verification under a different salt fails, as long as the key
/// derivation separates the two salts; nothing about its internals is
/// assumed, so inputs on which the derived hashes collide are excluded.
pub proof fn lemma_verify_wrong_salt(p: Seq<char>, s1: Seq<char>, s2: Seq<char>)
    requires
        spec_hash(p, s2) != spec_hash(p, s1),
    ensures
        !spec_verify(p, spec_hash(p, s1), s2),
{
}

/// A different candidate fails verification, as long as the key derivation
/// separates the two passwords; collision inputs are excluded as above.
pub proof fn lemma_verify_wrong_password(p1: Seq<char>, p2: Seq<char>, s: Seq<char>)
    requires
        spec_hash(p2, s) != spec_hash(p1, s),
    ensures
        !spec_verify(p2, spec_hash(p1, s), s),
{
}

} // verus!
