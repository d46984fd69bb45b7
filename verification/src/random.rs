//! The random operands of the tests, drawn from the `rand` crate.

use rand::rngs::ThreadRng;
use rand::Rng;
use vstd::prelude::*;

verus! {

/// The thread-local generator of the `rand` crate.
#[verifier::external_type_specification]
#[verifier::external_body]
pub struct ExThreadRng(ThreadRng);

/// Calls `rand::thread_rng`, a handle on the generator of this thread.
/// Nothing is claimed of it; it panics only where the operating system
/// offers no randomness to seed the generator.
#[verifier::external_body]
pub(crate) fn thread_rng() -> ThreadRng {
    rand::thread_rng()
}

/// Calls `Rng::gen::<u8>` on the generator: a byte drawn uniformly.
/// Nothing is claimed of the byte: every value may come back.
#[verifier::external_body]
pub(crate) fn random_byte(rng: &mut ThreadRng) -> u8 {
    rng.gen::<u8>()
}

} // verus!

verus! {

/// The random operand of a test: one fresh byte from the generator of this
/// thread. Contracts speak of a drawn operand `d` as `draw_operand.ensures((), d)`.
pub fn draw_operand() -> u8 {
    let mut rng = thread_rng();
    random_byte(&mut rng)
}

/// The random byte for position `pos` of the random-value test: a fresh
/// byte from the generator of this thread (every call takes the next byte
/// of the same thread-local stream). The position tells the draws apart in
/// contracts: `draw_byte_for.ensures((pos,), v)` says that `v` was drawn
/// for position `pos`.
pub fn draw_byte_for(pos: usize) -> u8 {
    let mut rng = thread_rng();
    random_byte(&mut rng)
}

} // verus!
