//! Time-based one-time-password verification: 6-digit codes over
//! 30-second steps, with a tolerance of one step either way.

use vstd::prelude::*;
use crate::error::ApplicationError;

verus! {

// Whether the one-time-password engine accepts a seed: its bytes must
// reach the minimum secret length the standard demands.
pub uninterp spec fn totp_secret_ok(seed: Seq<char>) -> bool;

// The 6-digit code an accepted seed yields at a 30-second step count.
pub uninterp spec fn totp_code_of(seed: Seq<char>, step: int) -> Seq<char>;

/// Relies on `totp_rs::TOTP::new` and `TOTP::generate` with SHA-1,
/// 6 digits and 30-second steps: construction fails exactly when the
/// seed is too short, and the code depends only on the seed bytes and
/// on `time / 30`.
#[verifier::external_body]
pub fn totp_generate(seed: &str, time: u64) -> (r: Result<String, ApplicationError>)
    ensures
        (r is Ok) == totp_secret_ok(seed@),
        r matches Ok(c) ==> c@ == totp_code_of(seed@, (time / 30) as int) && c@.len() == 6,
        r matches Err(e) ==> e is Unauthorized,
{
    match totp_rs::TOTP::new(totp_rs::Algorithm::SHA1, 6, 1, 30, seed.as_bytes().to_vec()) {
        Ok(totp) => Ok(totp.generate(time)),
        Err(_) => Err(ApplicationError::Unauthorized),
    }
}

/// Relies on `totp_rs::Secret::generate_secret`: 20 random bytes,
/// rendered as 40 hexadecimal characters, well above the minimum seed
/// length the engine accepts.
#[verifier::external_body]
pub fn generate_totp_secret() -> (r: String)
    ensures
        r@.len() == 40,
        totp_secret_ok(r@),
{
    totp_rs::Secret::generate_secret().to_string()
}

/// Whether a submitted token equals the code of the current, the
/// previous or the next 30-second step for the seed.
pub open spec fn totp_window_match(seed: Seq<char>, token: Seq<char>, now: u64) -> bool {
    let step = now as int / 30;
    ||| token == totp_code_of(seed, step - 1)
    ||| token == totp_code_of(seed, step)
    ||| token == totp_code_of(seed, step + 1)
}

/// Checks a submitted token against the previous, current and next
/// time window, absorbing one step of clock skew either way.  Fails
/// closed: a seed the engine rejects never validates a token.
pub fn check_totp(seed: &str, token: &str, now: u64) -> (r: Result<bool, ApplicationError>)
    requires
        30 <= now <= u64::MAX - 30,
    ensures
        (r is Ok) == totp_secret_ok(seed@),
        r matches Ok(m) ==> m == totp_window_match(seed@, token@, now),
        r matches Err(e) ==> e is Unauthorized,
{
    let prev = match totp_generate(seed, now - 30) {
        Ok(c) => c,
        Err(e) => {
            return Err(e);
        },
    };
    let cur = match totp_generate(seed, now) {
        Ok(c) => c,
        Err(e) => {
            return Err(e);
        },
    };
    let next = match totp_generate(seed, now + 30) {
        Ok(c) => c,
        Err(e) => {
            return Err(e);
        },
    };
    proof {
        assert((now - 30) / 30 == now / 30 - 1);
        assert((now + 30) / 30 == now / 30 + 1);
    }
    let t = token.to_owned();
    Ok(t == prev || t == cur || t == next)
}

} // verus!
