//! The Scrypt provider.
use vstd::prelude::*;
use vstd::string::*;
use vstd::utf8::*;

use crate::models::hash_algorithm::HashingAlgorithm;

verus! {

/// Scrypt with a balanced cost preset: N = 2^14, r = 8, p = 1, and a
/// 64-byte output.
#[derive(Clone, Copy, Debug, Eq, Hash, Ord, PartialEq, PartialOrd)]
pub struct Scrypt;

/// Base-2 logarithm of the preset's CPU/memory cost N.
pub const SCRYPT_LOG_N: u8 = 14;

/// The preset's block size r.
pub const SCRYPT_R: u32 = 8;

/// The preset's parallelism p.
pub const SCRYPT_P: u32 = 1;

/// The preset's output length in bytes.
pub const SCRYPT_LEN: usize = 64;

/// What `scrypt::scrypt` derives from password and salt bytes under the
/// given cost parameters and output length.
pub uninterp spec fn scrypt_digest(
    password: Seq<u8>,
    salt: Seq<u8>,
    log_n: u8,
    r: u32,
    p: u32,
    len: usize,
) -> Seq<u8>;

/// Parameters that `scrypt::Params::new` accepts on every target of 32 bits
/// or more, and that leave `scrypt::scrypt` nothing to refuse.
pub open spec fn scrypt_params_fit(log_n: u8, r: u32, p: u32, len: usize) -> bool {
    &&& log_n < 19
    &&& 0 < r <= 64
    &&& 0 < p <= 64
    &&& log_n < r * 16
    &&& 10 <= len <= 64
}

/// Relies on `scrypt::Params::new` and `scrypt::scrypt`: the parameters are
/// checked, then `len` bytes are derived that depend on the arguments alone.
/// Either step's error gives `None`.
#[verifier::external_body]
pub(crate) fn scrypt_derive(
    password: &[u8],
    salt: &[u8],
    log_n: u8,
    r: u32,
    p: u32,
    len: usize,
) -> (res: Option<Vec<u8>>)
    ensures
        scrypt_params_fit(log_n, r, p, len) ==> res is Some,
        res matches Some(v) ==> v@ == scrypt_digest(password@, salt@, log_n, r, p, len),
        res matches Some(v) ==> v@.len() == len,
{
    let params = scrypt::Params::new(log_n, r, p, len).ok()?;
    let mut out = vec![0u8; len];
    scrypt::scrypt(password, salt, &params, &mut out).ok()?;
    Some(out)
}

/// The outcome of the preset on a password and a salt.
pub open spec fn scrypt_outcome(password: Seq<char>, salt: Seq<char>) -> Result<Seq<u8>, Seq<char>> {
    Ok(
        scrypt_digest(
            encode_utf8(password),
            encode_utf8(salt),
            SCRYPT_LOG_N,
            SCRYPT_R,
            SCRYPT_P,
            SCRYPT_LEN,
        ),
    )
}

impl HashingAlgorithm for Scrypt {
    open spec fn hashes_to(
        password: Seq<char>,
        salt: Seq<char>,
        result: Result<Seq<u8>, Seq<char>>,
    ) -> bool {
        &&& result == scrypt_outcome(password, salt)
        &&& result matches Ok(d) ==> d.len() == SCRYPT_LEN
    }

    fn hash_password(password: &str, salt: &str) -> (r: Result<Vec<u8>, String>) {
        let derived = scrypt_derive(
            password.as_bytes(),
            salt.as_bytes(),
            SCRYPT_LOG_N,
            SCRYPT_R,
            SCRYPT_P,
            SCRYPT_LEN,
        );
        match derived {
            Some(v) => Ok(v),
            None => Err("invalid scrypt parameters".to_owned()),
        }
    }
}

} // verus!
