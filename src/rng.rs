//! The source of random bytes for `CXNN`.
use vstd::prelude::*;

verus! {

/// Relies on `rand::random::<u8>`: a byte drawn from the thread-local
/// generator. Nothing is known of its value.
#[verifier::external_body]
pub(crate) fn random_byte() -> (r: u8) {
    rand::random::<u8>()
}

} // verus!
