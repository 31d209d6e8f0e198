//! The closed set of supported algorithms, their textual identifiers, and
//! the capability every algorithm provider offers.
use vstd::prelude::*;
use vstd::string::*;

use crate::text::{chars_of, equals_str};

verus! {

/// The supported key-derivation algorithms.
#[derive(Clone, Copy, Debug, PartialEq, Eq, Structural, Hash, PartialOrd, Ord)]
pub enum HashAlgorithm {
    /// Argon2i, memory-hard and deterministic for a password and salt.
    Argon2i,
    /// Bcrypt, which embeds its own random salt in its output.
    Bcrypt,
    /// Scrypt with a fixed, balanced cost preset.
    Scrypt,
}

/// The lowercase identifier of each algorithm.
pub open spec fn identifier_of(a: HashAlgorithm) -> Seq<char> {
    match a {
        HashAlgorithm::Argon2i => "argon2i"@,
        HashAlgorithm::Bcrypt => "bcrypt"@,
        HashAlgorithm::Scrypt => "scrypt"@,
    }
}

/// The algorithm whose identifier is exactly `s`, if any (case-sensitive).
pub open spec fn algorithm_named(s: Seq<char>) -> Option<HashAlgorithm> {
    if s == "argon2i"@ {
        Some(HashAlgorithm::Argon2i)
    } else if s == "bcrypt"@ {
        Some(HashAlgorithm::Bcrypt)
    } else if s == "scrypt"@ {
        Some(HashAlgorithm::Scrypt)
    } else {
        None
    }
}

/// The name of each algorithm as its `Debug` form writes it.
pub open spec fn display_name(a: HashAlgorithm) -> Seq<char> {
    match a {
        HashAlgorithm::Argon2i => "Argon2i"@,
        HashAlgorithm::Bcrypt => "Bcrypt"@,
        HashAlgorithm::Scrypt => "Scrypt"@,
    }
}

/// Mapping an algorithm to its identifier and back gives the same algorithm.
pub proof fn lemma_identifier_round_trip(a: HashAlgorithm)
    ensures
        algorithm_named(identifier_of(a)) == Some(a),
{
    reveal_strlit("argon2i");
    reveal_strlit("bcrypt");
    reveal_strlit("scrypt");
    assert("argon2i"@ != "bcrypt"@ && "argon2i"@ != "scrypt"@) by {
        assert("argon2i"@.len() != "bcrypt"@.len());
        assert("argon2i"@.len() != "scrypt"@.len());
    }
    assert("bcrypt"@ != "scrypt"@) by {
        assert("bcrypt"@[0] != "scrypt"@[0]);
    }
}

impl HashAlgorithm {
    /// The lowercase identifier of this algorithm.
    pub fn identifier(&self) -> (r: &'static str)
        ensures
            r@ == identifier_of(*self),
    {
        match self {
            HashAlgorithm::Argon2i => "argon2i",
            HashAlgorithm::Bcrypt => "bcrypt",
            HashAlgorithm::Scrypt => "scrypt",
        }
    }

    /// The algorithm with the given identifier, if any.
    pub fn from_chars(s: &Vec<char>) -> (r: Option<HashAlgorithm>)
        ensures
            r == algorithm_named(s@),
    {
        if equals_str(s, "argon2i") {
            Some(HashAlgorithm::Argon2i)
        } else if equals_str(s, "bcrypt") {
            Some(HashAlgorithm::Bcrypt)
        } else if equals_str(s, "scrypt") {
            Some(HashAlgorithm::Scrypt)
        } else {
            None
        }
    }

    /// The algorithm with the given identifier, if any.
    pub fn from_identifier(s: &str) -> (r: Option<HashAlgorithm>)
        ensures
            r == algorithm_named(s@),
    {
        let cs = chars_of(s);
        Self::from_chars(&cs)
    }

    /// The algorithm's name as its `Debug` form writes it.
    pub fn to_string(&self) -> (r: String)
        ensures
            r@ == display_name(*self),
    {
        match self {
            HashAlgorithm::Argon2i => "Argon2i".to_owned(),
            HashAlgorithm::Bcrypt => "Bcrypt".to_owned(),
            HashAlgorithm::Scrypt => "Scrypt".to_owned(),
        }
    }
}

impl std::str::FromStr for HashAlgorithm {
    type Err = String;

    fn from_str(s: &str) -> (r: Result<HashAlgorithm, String>)
        ensures
            match algorithm_named(s@) {
                Some(a) => r == Ok::<HashAlgorithm, String>(a),
                None => r matches Err(e) && e@ == "Invalid hash algorithm"@,
            },
    {
        match HashAlgorithm::from_identifier(s) {
            Some(a) => Ok(a),
            None => Err("Invalid hash algorithm".to_owned()),
        }
    }
}

/// The outcome of a provider call, seen as byte and character sequences.
pub open spec fn outcome_view(r: Result<Vec<u8>, String>) -> Result<Seq<u8>, Seq<char>> {
    match r {
        Ok(v) => Ok(v@),
        Err(e) => Err(e@),
    }
}

/// The capability of an algorithm provider: derive bytes from a password
/// and a salt.
pub trait HashingAlgorithm {
    /// Whether `result` is an outcome this provider can give for `password`
    /// and `salt`. A provider that does not say admits every outcome.
    open spec fn hashes_to(
        password: Seq<char>,
        salt: Seq<char>,
        result: Result<Seq<u8>, Seq<char>>,
    ) -> bool {
        true
    }

    /// Hashes `password` with `salt`.
    fn hash_password(password: &str, salt: &str) -> (r: Result<Vec<u8>, String>)
        ensures
            Self::hashes_to(password@, salt@, outcome_view(r)),
    ;
}

} // verus!
