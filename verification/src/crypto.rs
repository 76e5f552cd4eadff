//! Credential and secret engine: password-based key derivation,
//! double hashing of the derived key, and authenticated encryption of
//! the per-account one-time-password seed.
//!
//! The cryptographic primitives themselves are outside calls; each one
//! sits behind a single trusted wrapper whose contract states what the
//! callee's source shows.  Everything that combines them - the
//! `nonce:ciphertext` framing, the decision logic - is verified.

use vstd::prelude::*;
use vstd::string::*;
use argon2::PasswordHasher;
use argon2::PasswordVerifier;
use chacha20poly1305::AeadCore;
use chacha20poly1305::aead::Aead;
use chacha20poly1305::aead::KeyInit;
use crate::error::ApplicationError;
use crate::id::{is_first_colon, lemma_first_colon_unique};

verus! {

/// Longest plaintext, in characters, that the secret engine accepts.
/// Keeps every byte length involved far below the limits of the
/// underlying primitives, so that no call can panic or overflow.
pub const MAX_PLAIN_LEN: usize = 0x00ff_ffff;

/// Longest stored secret blob, in characters, that `decrypt` accepts;
/// every string `encrypt` produces is well below it.
pub const MAX_BLOB_LEN: usize = 0x1fff_ffff;

// The 32-byte key that memory-hard hashing derives from a password and
// a salt, when it accepts the two; what the bytes are is known only to
// the primitive.
pub uninterp spec fn derived_key_of(password: Seq<char>, salt: Seq<char>) -> Option<Seq<u8>>;

// Whether a stored self-describing password hash matches a candidate
// key: re-hashing the key with the parameters and salt recorded in the
// hash string reproduces its digest.
pub uninterp spec fn phc_verify_ok(hash: Seq<char>, key: Seq<u8>) -> bool;

// The plaintext that authenticated decryption recovers from a
// ciphertext under a key and nonce, or nothing when the
// authentication tag does not match or the bytes are no valid text.
pub uninterp spec fn aead_pt_of(key: Seq<u8>, nonce: Seq<u8>, ct: Seq<u8>) -> Option<Seq<char>>;

// The bytes a base64 string decodes to, or nothing when it is not
// valid base64.
pub uninterp spec fn b64_val_of(s: Seq<char>) -> Option<Seq<u8>>;

/// Relies on `password_hash::SaltString::generate`: 16 random bytes,
/// base64-encoded to 22 characters.  Such a salt, with any password of
/// accepted length, is within the length bounds that
/// `argon2::Argon2::hash_password_into` accepts, so derivation with it
/// succeeds.
#[verifier::external_body]
pub fn generate_salt() -> (r: String)
    ensures
        r@.len() == 22,
        forall|p: Seq<char>|
            p.len() <= MAX_PLAIN_LEN ==> (#[trigger] derived_key_of(p, r@)) is Some,
{
    argon2::password_hash::SaltString::generate(&mut argon2::password_hash::rand_core::OsRng)
        .to_string()
}

/// Relies on `argon2::Argon2::hash_password_into`: fills the 32-byte
/// output deterministically from the password and salt bytes, and
/// fails exactly when a length bound is violated, which is what the
/// derivation name being `None` stands for.
#[verifier::external_body]
pub fn derive_key_raw(password: &str, salt: &str) -> (r: Result<[u8; 32], ApplicationError>)
    ensures
        (r is Ok) == (derived_key_of(password@, salt@) is Some),
        r matches Ok(k) ==> Some(k@) == derived_key_of(password@, salt@),
        r matches Err(e) ==> e is CryptoError,
{
    let mut key = [0u8; 32];
    match argon2::Argon2::default().hash_password_into(
        password.as_bytes(),
        salt.as_bytes(),
        &mut key,
    ) {
        Ok(()) => Ok(key),
        Err(_) => Err(ApplicationError::CryptoError),
    }
}

/// Relies on `argon2::Argon2::hash_password` (as `PasswordHasher`)
/// with a salt from `SaltString::generate`: hashing a 32-byte key with
/// a fresh salt cannot fail, and verifying the produced hash string
/// against the same key recomputes the same digest.
#[verifier::external_body]
pub fn hash_key_fresh(key: &[u8; 32]) -> (r: String)
    ensures
        phc_verify_ok(r@, key@),
{
    let salt = argon2::password_hash::SaltString::generate(
        &mut argon2::password_hash::rand_core::OsRng,
    );
    argon2::Argon2::default()
        .hash_password(key, &salt)
        .expect("hashing a 32-byte key with a fresh salt cannot fail")
        .to_string()
}

/// Relies on `argon2::PasswordVerifier::verify_password` after
/// `PasswordHash::new`: both deterministic in the hash string and the
/// candidate key; a hash string that does not parse verifies as false.
#[verifier::external_body]
pub fn verify_key(hash: &str, key: &[u8]) -> (r: bool)
    ensures
        r == phc_verify_ok(hash@, key@),
{
    match argon2::PasswordHash::new(hash) {
        Ok(parsed) => argon2::Argon2::default().verify_password(key, &parsed).is_ok(),
        Err(_) => false,
    }
}

/// Relies on `chacha20poly1305::AeadCore::generate_nonce`: 24 fresh
/// random bytes.
#[verifier::external_body]
pub fn gen_nonce() -> (r: Vec<u8>)
    ensures
        r@.len() == 24,
{
    chacha20poly1305::XChaCha20Poly1305::generate_nonce(&mut chacha20poly1305::aead::OsRng)
        .to_vec()
}

/// Relies on `chacha20poly1305::aead::Aead::encrypt`: succeeds for
/// every plaintext below the cipher's block-count limit, appends a
/// 16-byte tag, and the matching `decrypt` under the same key and
/// nonce authenticates the result and recovers exactly the plaintext,
/// which is valid text here because it comes from a `&str`.
#[verifier::external_body]
pub fn aead_seal(key: &[u8; 32], nonce: &[u8], data: &str) -> (r: Result<
    Vec<u8>,
    ApplicationError,
>)
    requires
        nonce@.len() == 24,
    ensures
        data@.len() <= MAX_PLAIN_LEN ==> r is Ok,
        r matches Ok(ct) ==> aead_pt_of(key@, nonce@, ct@) == Some(data@) && ct@.len() <= 4
            * data@.len() + 16,
{
    let cipher = chacha20poly1305::XChaCha20Poly1305::new(
        chacha20poly1305::Key::from_slice(key),
    );
    match cipher.encrypt(chacha20poly1305::XNonce::from_slice(nonce), data.as_bytes()) {
        Ok(ct) => Ok(ct),
        Err(_) => Err(ApplicationError::CryptoError),
    }
}

/// Relies on `chacha20poly1305::aead::Aead::decrypt` and
/// `String::from_utf8`: deterministic in key, nonce and ciphertext;
/// fails when the authentication tag does not match or the plaintext
/// is no valid text.
#[verifier::external_body]
pub fn aead_open(key: &[u8; 32], nonce: &[u8], ct: &[u8]) -> (r: Option<String>)
    requires
        nonce@.len() == 24,
    ensures
        (r is Some) == (aead_pt_of(key@, nonce@, ct@) is Some),
        r matches Some(p) ==> Some(p@) == aead_pt_of(key@, nonce@, ct@),
{
    let cipher = chacha20poly1305::XChaCha20Poly1305::new(
        chacha20poly1305::Key::from_slice(key),
    );
    match cipher.decrypt(chacha20poly1305::XNonce::from_slice(nonce), ct) {
        Ok(pt) => String::from_utf8(pt).ok(),
        Err(_) => None,
    }
}

/// Relies on `openssl::base64::encode_block`: deterministic base64
/// with padding and without line breaks, four characters for every
/// three bytes, over an alphabet that holds no colon; and
/// `decode_block` inverts it.
#[verifier::external_body]
pub fn b64_encode(data: &[u8]) -> (r: String)
    requires
        data@.len() <= MAX_BLOB_LEN,
    ensures
        b64_val_of(r@) == Some(data@),
        r@.len() <= 2 * data@.len() + 4,
        forall|i: int| 0 <= i < r@.len() ==> r@[i] != ':',
{
    openssl::base64::encode_block(data)
}

/// Relies on `openssl::base64::decode_block`: deterministic in its
/// input; rejects what is not valid base64.
#[verifier::external_body]
pub fn b64_decode(data: &str) -> (r: Option<Vec<u8>>)
    requires
        data@.len() <= MAX_BLOB_LEN,
    ensures
        (r is Some) == (b64_val_of(data@) is Some),
        r matches Some(v) ==> Some(v@) == b64_val_of(data@),
{
    match openssl::base64::decode_block(data) {
        Ok(v) => Some(v),
        Err(_) => None,
    }
}

/// The plaintext that `decrypt` recovers from a stored secret string
/// under a key: the part before the first colon must decode to a
/// 24-byte nonce, the rest to a ciphertext that authenticates under
/// the key.
pub open spec fn decrypt_spec(key: Seq<u8>, s: Seq<char>) -> Option<Seq<char>> {
    if exists|i: int| is_first_colon(s, i) {
        let i = choose|i: int| is_first_colon(s, i);
        match b64_val_of(s.subrange(0, i)) {
            Some(nonce) => if nonce.len() == 24 {
                match b64_val_of(s.subrange(i + 1, s.len() as int)) {
                    Some(ct) => aead_pt_of(key, nonce, ct),
                    None => None,
                }
            } else {
                None
            },
            None => None,
        }
    } else {
        None
    }
}

/// Encrypts `data` under `key` with a fresh random nonce; the result
/// is `base64(nonce) ':' base64(ciphertext)`.
///
/// The round trip stands in the contract: decrypting the returned
/// string under the same key recovers exactly the plaintext, and the
/// result stays within the length bound that `decrypt` accepts.
pub fn encrypt(key: &[u8; 32], data: &str) -> (r: String)
    requires
        data@.len() <= MAX_PLAIN_LEN,
    ensures
        decrypt_spec(key@, r@) == Some(data@),
        r@.len() <= MAX_BLOB_LEN,
{
    let nonce = gen_nonce();
    let ct = match aead_seal(key, nonce.as_slice(), data) {
        Ok(ct) => ct,
        Err(_) => {
            proof {
                assert(false);
            }
            vstd::pervasive::unreached()
        },
    };
    let mut out = b64_encode(nonce.as_slice());
    let ct_b64 = b64_encode(ct.as_slice());
    let ghost e1 = out@;
    let ghost e2 = ct_b64@;
    out.append(":");
    out.append(ct_b64.as_str());
    proof {
        reveal_strlit(":");
        let s = out@;
        let c = e1.len() as int;
        assert(s =~= e1 + ":"@ + e2);
        assert(s[c] == ':');
        assert(forall|j: int| 0 <= j < c ==> s[j] == e1[j] && s[j] != ':');
        assert(is_first_colon(s, c));
        let w = choose|i: int| is_first_colon(s, i);
        lemma_first_colon_unique(s, w, c);
        assert(s.subrange(0, c) =~= e1);
        assert(s.subrange(c + 1, s.len() as int) =~= e2);
    }
    out
}

/// Splits a stored secret blob at its first colon, base64-decodes the
/// nonce and ciphertext parts, and opens the ciphertext under `key`.
/// Fails uniformly as unauthorized: a wrong key and a malformed blob
/// are indistinguishable to the caller.
pub fn decrypt(key: &[u8; 32], data: &str) -> (r: Result<String, ApplicationError>)
    requires
        data@.len() <= MAX_BLOB_LEN,
    ensures
        r matches Ok(p) ==> decrypt_spec(key@, data@) == Some(p@),
        decrypt_spec(key@, data@) matches Some(p) ==> r matches Ok(q) && q@ == p,
        r matches Err(e) ==> e is Unauthorized && decrypt_spec(key@, data@) is None,
{
    let n = data.unicode_len();
    let mut i: usize = 0;
    while i < n && data.get_char(i) != ':'
        invariant
            0 <= i <= n,
            n == data@.len(),
            forall|j: int| 0 <= j < i ==> data@[j] != ':',
        decreases n - i,
    {
        i = i + 1;
    }
    if i == n {
        proof {
            assert(forall|k: int| is_first_colon(data@, k) ==> data@[k] != ':');
        }
        return Err(ApplicationError::Unauthorized);
    }
    proof {
        assert(is_first_colon(data@, i as int));
        let w = choose|k: int| is_first_colon(data@, k);
        lemma_first_colon_unique(data@, w, i as int);
    }
    let nonce_part = data.substring_char(0, i);
    let ct_part = data.substring_char(i + 1, n);
    let nonce = match b64_decode(nonce_part) {
        Some(v) => v,
        None => {
            return Err(ApplicationError::Unauthorized);
        },
    };
    if nonce.len() != 24 {
        return Err(ApplicationError::Unauthorized);
    }
    let ct = match b64_decode(ct_part) {
        Some(v) => v,
        None => {
            return Err(ApplicationError::Unauthorized);
        },
    };
    match aead_open(key, nonce.as_slice(), ct.as_slice()) {
        Some(p) => Ok(p),
        None => Err(ApplicationError::Unauthorized),
    }
}

} // verus!
