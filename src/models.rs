//! The hash entity, its builder and codec, and the algorithm model.
pub mod hash;
pub mod hash_algorithm;
