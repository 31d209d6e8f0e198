//! The Argon2i provider.
use vstd::prelude::*;
use vstd::string::*;
use vstd::utf8::*;

use crate::models::hash_algorithm::HashingAlgorithm;

verus! {

/// Argon2i with the defaults of `argon2rs` (one lane, 4096 KiB, three
/// passes) and a 32-byte output.
#[derive(Clone, Copy, Debug, Eq, Hash, Ord, PartialEq, PartialOrd)]
pub struct Argon2i;

/// What `argon2rs::argon2i_simple` derives from a password and a salt.
pub uninterp spec fn argon2i_digest(password: Seq<char>, salt: Seq<char>) -> Seq<u8>;

/// Relies on `argon2rs::argon2i_simple`: 32 bytes that depend on the two
/// strings alone. It asserts a salt of 8 to 2^32 - 1 bytes and a password
/// of at most 2^32 - 1 bytes.
#[verifier::external_body]
fn argon2i_simple(password: &str, salt: &str) -> (r: Vec<u8>)
    requires
        8 <= salt.spec_bytes().len() <= u32::MAX,
        password.spec_bytes().len() <= u32::MAX,
    ensures
        r@ == argon2i_digest(password@, salt@),
        r@.len() == 32,
{
    argon2rs::argon2i_simple(password, salt).to_vec()
}

/// The message given when Argon2i cannot take the inputs.
pub const ARGON2I_INPUT_ERROR: &'static str =
    "Argon2i needs a salt of 8 to 4294967295 bytes and a password of at most 4294967295 bytes";

/// Whether Argon2i accepts the inputs: the salt and password sizes it asserts.
pub open spec fn argon2i_accepts(password: Seq<char>, salt: Seq<char>) -> bool {
    &&& 8 <= encode_utf8(salt).len() <= u32::MAX
    &&& encode_utf8(password).len() <= u32::MAX
}

/// The outcome of Argon2i on a password and a salt.
pub open spec fn argon2i_outcome(password: Seq<char>, salt: Seq<char>) -> Result<Seq<u8>, Seq<char>> {
    if argon2i_accepts(password, salt) {
        Ok(argon2i_digest(password, salt))
    } else {
        Err(ARGON2I_INPUT_ERROR@)
    }
}

impl HashingAlgorithm for Argon2i {
    open spec fn hashes_to(
        password: Seq<char>,
        salt: Seq<char>,
        result: Result<Seq<u8>, Seq<char>>,
    ) -> bool {
        &&& result == argon2i_outcome(password, salt)
        &&& result matches Ok(d) ==> d.len() == 32
    }

    fn hash_password(password: &str, salt: &str) -> (r: Result<Vec<u8>, String>) {
        let salt_len = salt.as_bytes().len();
        let password_len = password.as_bytes().len();
        if salt_len < 8 || salt_len > 0xffff_ffff || password_len > 0xffff_ffff {
            return Err(ARGON2I_INPUT_ERROR.to_owned());
        }
        let digest = argon2i_simple(password, salt);
        Ok(digest)
    }
}

} // verus!
