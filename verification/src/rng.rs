use vstd::prelude::*;

use rand::Rng;

verus! {

#[verifier::external_type_specification]
#[verifier::external_body]
pub struct ExThreadRng(rand::rngs::ThreadRng);

/// The machine's source of random bytes, drawn on by the masked-random
/// instruction. It is an owned component of the machine state, not a
/// hidden global, so a host can construct the machine explicitly.
pub struct RandomByteGenerator {
    rng: rand::rngs::ThreadRng,
}

impl RandomByteGenerator {
    /// Relies on rand::thread_rng: hands out the thread-local generator.
    #[verifier::external_body]
    pub(crate) fn new() -> RandomByteGenerator {
        RandomByteGenerator { rng: rand::thread_rng() }
    }

    /// Relies on rand::Rng::gen, which for u8 draws a uniformly
    /// distributed byte. Nothing is promised of the value: callers are
    /// verified for every byte that may come back.
    #[verifier::external_body]
    pub(crate) fn random_byte(&mut self) -> u8 {
        self.rng.gen()
    }
}

} // verus!
