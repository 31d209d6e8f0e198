//! Randomness for salt generation, drawn from `vrd`.
use vstd::prelude::*;

verus! {

/// The random generator of `vrd`, opaque to proofs.
#[verifier::external_type_specification]
#[verifier::external_body]
pub struct ExRandom(vrd::Random);

/// Relies on `vrd::Random::new`: a generator seeded from the operating
/// system's entropy. Nothing is promised of its state.
pub assume_specification[ vrd::Random::new ]() -> vrd::Random;

/// Relies on `vrd::Random::random_range`: a value in `[min, max)`. The crate
/// asserts `max > min`.
pub assume_specification[ vrd::Random::random_range ](
    rng: &mut vrd::Random,
    min: u32,
    max: u32,
) -> (r: u32)
    requires
        max > min,
    ensures
        min <= r < max,
;

/// Relies on `vrd::Random::bytes`: `len` random bytes.
pub assume_specification[ vrd::Random::bytes ](rng: &mut vrd::Random, len: usize) -> (r: Vec<u8>)
    ensures
        r@.len() == len,
;

} // verus!
