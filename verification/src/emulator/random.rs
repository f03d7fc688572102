//! The random source of the machine: the thread-local generator of `rand`.

use vstd::prelude::*;

verus! {

#[verifier::external_type_specification]
#[verifier::external_body]
pub struct ExThreadRng(rand::rngs::ThreadRng);

/// Calls `rand::thread_rng`, which hands out a handle to the generator of
/// the calling thread. Nothing is claimed of the handle. The generator is
/// seeded from the operating system on first use, and the call fails only
/// where the system has no entropy to give.
#[verifier::external_body]
pub(crate) fn thread_rng() -> rand::rngs::ThreadRng {
    rand::thread_rng()
}

/// Calls `rand::Rng::gen::<u8>` on the handle, which draws the next byte.
/// Nothing is claimed of the byte: it may be any value, and two calls may
/// differ. The generator reseeds itself from the operating system from time
/// to time, and the call fails only where that does.
#[verifier::external_body]
pub(crate) fn random_byte(rng: &mut rand::rngs::ThreadRng) -> u8 {
    rand::Rng::gen::<u8>(rng)
}

} // verus!
