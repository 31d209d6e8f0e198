//! The Bcrypt provider.
use vstd::prelude::*;
use vstd::string::*;
use vstd::utf8::*;

use crate::models::hash_algorithm::HashingAlgorithm;
use crate::text::decimal_digit;

verus! {

/// Bcrypt at the crate's default work factor. The salt argument is not
/// used: the primitive draws its own salt and embeds it in its output.
#[derive(Clone, Copy, Debug, Eq, Hash, Ord, PartialEq, PartialOrd)]
pub struct Bcrypt;

/// The error type of `bcrypt`, opaque to proofs.
#[verifier::external_type_specification]
#[verifier::external_body]
pub struct ExBcryptError(bcrypt::BcryptError);

/// Relies on `bcrypt::DEFAULT_COST`: the work factor the crate recommends.
#[verifier::external_body]
pub(crate) fn default_cost() -> (r: u32)
    ensures
        r == 12,
{
    bcrypt::DEFAULT_COST
}

/// A work factor below one hundred in two decimal digits.
pub open spec fn cost_digits(cost: u32) -> Seq<char> {
    seq![decimal_digit((cost / 10) as int), decimal_digit((cost % 10) as int)]
}

/// Relies on `bcrypt::hash`: it refuses a cost outside 4..=31, draws a
/// random 16-byte salt (which can fail), and renders `$2b$`, the cost in two
/// digits, `$`, then 53 characters of salt and digest, all ASCII, so the
/// string is 60 bytes long. `bcrypt::verify`
/// rehashes with the salt and cost read back from that string, so the string
/// verifies against the password it was made from.
#[verifier::external_body]
pub(crate) fn bcrypt_hash(password: &str, cost: u32) -> (r: Result<String, bcrypt::BcryptError>)
    ensures
        r is Ok ==> 4 <= cost <= 31,
        r matches Ok(h) ==> h@.len() == 60 && encode_utf8(h@).len() == 60,
        r matches Ok(h) ==> h@.take(7) == "$2b$"@ + cost_digits(cost) + "$"@,
        r matches Ok(h) ==> bcrypt_verdict(password@, h@) == Some(true),
{
    bcrypt::hash(password, cost)
}

/// Relies on the `Display` text of `bcrypt::BcryptError`.
#[verifier::external_body]
pub(crate) fn bcrypt_error_text(e: &bcrypt::BcryptError) -> (r: String) {
    e.to_string()
}

/// What `bcrypt::verify` answers for a password and a stored hash string:
/// `None` where it fails.
pub uninterp spec fn bcrypt_verdict(password: Seq<char>, hash: Seq<char>) -> Option<bool>;

/// Relies on `bcrypt::verify`: it parses the stored string, rehashes the
/// password with the salt and cost found there, and compares; the answer
/// depends on the two strings alone.
#[verifier::external_body]
pub(crate) fn bcrypt_verify(password: &str, hash: &str) -> (r: Result<bool, bcrypt::BcryptError>)
    ensures
        match r {
            Ok(b) => bcrypt_verdict(password@, hash@) == Some(b),
            Err(_) => bcrypt_verdict(password@, hash@) is None,
        },
{
    bcrypt::verify(password, hash)
}

/// Whether `h` is the bytes of a Bcrypt hash string as `bcrypt::hash`
/// renders it at work factor `cost`.
pub open spec fn bcrypt_shaped(h: Seq<u8>, cost: u32) -> bool {
    &&& valid_utf8(h)
    &&& h.len() == 60
    &&& decode_utf8(h).len() == 60
    &&& decode_utf8(h).take(7) == "$2b$"@ + cost_digits(cost) + "$"@
}

/// The work factor the provider hashes with.
pub const BCRYPT_COST: u32 = 12;

impl HashingAlgorithm for Bcrypt {
    open spec fn hashes_to(
        password: Seq<char>,
        salt: Seq<char>,
        result: Result<Seq<u8>, Seq<char>>,
    ) -> bool {
        result matches Ok(h) ==> bcrypt_shaped(h, BCRYPT_COST) && bcrypt_verdict(password, decode_utf8(h))
            == Some(true)
    }

    fn hash_password(password: &str, _salt: &str) -> (r: Result<Vec<u8>, String>) {
        match bcrypt_hash(password, default_cost()) {
            Ok(h) => {
                let bytes = h.as_str().as_bytes_vec();
                proof {
                    encode_utf8_valid_utf8(h@);
                    encode_utf8_decode_utf8(h@);
                }
                Ok(bytes)
            },
            Err(e) => Err(bcrypt_error_text(&e)),
        }
    }
}

} // verus!
