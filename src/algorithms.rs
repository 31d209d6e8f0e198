//! One provider per supported algorithm, each a thin verified layer over
//! the outside primitive that does the derivation.
pub mod argon2i;
pub mod bcrypt;
pub mod scrypt;
