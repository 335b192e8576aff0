//! Identifiers of journal records.

use vstd::prelude::*;

verus! {

/// A 128-bit universally unique identifier, held as its integer value.
#[derive(Clone, Copy, PartialEq, Eq, Debug, Hash)]
pub struct Id(pub u128);

/// Whether `v` carries the version and variant bits of a random (version 4) UUID.
pub open spec fn is_random_uuid(v: u128) -> bool {
    &&& (v >> 76u128) & 0xfu128 == 4
    &&& (v >> 62u128) & 0x3u128 == 2
}

impl Id {
    /// A fresh random identifier.
    pub fn new_v4() -> (r: Id)
        ensures
            is_random_uuid(r.0),
    {
        Id(uuid_new_v4())
    }
}

/// A random UUID from uuid's `Uuid::new_v4`, as its integer value. Claimed: the
/// version bits say 4 and the variant bits say RFC 4122, as the source sets
/// them on every call; the other bits are random and nothing is said of them.
#[verifier::external_body]
fn uuid_new_v4() -> (r: u128)
    ensures
        is_random_uuid(r),
{
    uuid::Uuid::new_v4().as_u128()
}

} // verus!
