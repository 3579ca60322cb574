//! The host's random source behind a trusted wrapper. The engine states
//! what holds of every outcome; nothing is promised of the value drawn.

use rand::Rng;
use vstd::prelude::*;

verus! {

/// Relies on `rand::thread_rng` and `rand::Rng::gen`: draws one random
/// byte from the thread-local generator. No contract is stated, since
/// nothing can be promised of a random value; the caller's contract holds
/// for every byte this may return.
#[verifier::external_body]
pub(crate) fn random_byte() -> u8 {
    rand::thread_rng().gen()
}

} // verus!
