//! Sources of randomness. Nothing is promised of what they return beyond
//! the range asked for.

use vstd::prelude::*;
use rand::Rng;

verus! {

/// `rand::Rng::gen::<u8>` on the thread's generator.
#[verifier::external_body]
pub(crate) fn random_u8() -> (r: u8) {
    rand::thread_rng().gen::<u8>()
}

/// `rand::Rng::gen::<u64>` on the thread's generator.
#[verifier::external_body]
pub(crate) fn random_u64() -> (r: u64) {
    rand::thread_rng().gen::<u64>()
}

/// `rand::Rng::gen::<u128>` on the thread's generator.
#[verifier::external_body]
pub(crate) fn random_u128() -> (r: u128) {
    rand::thread_rng().gen::<u128>()
}

/// `rand::Rng::gen_range(low..high)` on the thread's generator: a value in
/// the range. The crate panics on an empty range, which `requires` leaves out.
#[verifier::external_body]
pub(crate) fn random_u32_in(low: u32, high: u32) -> (r: u32)
    requires
        low < high,
    ensures
        low <= r < high,
{
    rand::thread_rng().gen_range(low..high)
}

/// `tmelcrypt::HashVal::random`: 32 random bytes.
#[verifier::external_body]
pub(crate) fn random_hash() -> (h: [u8; 32]) {
    tmelcrypt::HashVal::random().0
}

/// `tmelcrypt::ed25519_keygen`, keeping the public key of the fresh key pair.
#[verifier::external_body]
#[allow(deprecated)]
pub(crate) fn random_public_key() -> (pk: [u8; 32]) {
    tmelcrypt::ed25519_keygen().0 .0
}

} // verus!
