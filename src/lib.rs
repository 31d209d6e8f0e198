//! Password hashing over a closed set of key-derivation algorithms
//! (Argon2i, Bcrypt, Scrypt): a hash entity with a validated builder, a
//! canonical `$`-delimited string codec, and a verification protocol.
use vstd::prelude::*;

pub mod algorithms;
pub mod encoding;
pub mod entropy;
pub mod models;
pub mod text;

pub use algorithms::argon2i::Argon2i;
pub use algorithms::bcrypt::Bcrypt;
pub use algorithms::scrypt::Scrypt;
pub use models::hash::{HashBuilder, Salt};
pub use models::hash_algorithm::{HashAlgorithm, HashingAlgorithm};

verus! {

} // verus!
