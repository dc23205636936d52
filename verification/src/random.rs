//! The source of random bytes.

use vstd::prelude::*;
use rand::Rng;

verus! {

/// A byte from the thread-local generator of `rand::thread_rng()`, drawn with
/// `Rng::gen`. The generator is seeded by the system, so nothing is claimed
/// of the byte: any value may come back, and two calls may differ. The call
/// takes no input; it panics only where the system gives the generator no
/// seed.
#[verifier::external_body]
pub(crate) fn random_byte() -> (byte: u8) {
    let mut rng = rand::thread_rng();
    rng.gen()
}

} // verus!
