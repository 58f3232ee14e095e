//! Ids for jobs and sessions: random UUIDs as numbers.
use vstd::prelude::*;

verus! {

/// Whether `id` has the version and variant bits of a random (version 4) UUID.
pub open spec fn is_random_id(id: u128) -> bool {
    &&& (id >> 76) & 0xf == 4
    &&& (id >> 62) & 0x3 == 2
}

/// Trusted: `uuid::Uuid::new_v4` draws a version 4 UUID. Which one is up to chance, so nothing is
/// said of its other bits, nor that it differs from earlier ones.
#[verifier::external_body]
pub(crate) fn new_id() -> (result: u128)
    ensures
        is_random_id(result),
{
    uuid::Uuid::new_v4().as_u128()
}

} // verus!
