//! The lifetime ("TTL") policy of the expiring key-value store that holds the
//! contract state. Each entry carries a remaining-lifetime counter; touching
//! an entry bumps that counter so the entry is not evicted. Two storage
//! classes exist, configuration ("instance") and durable records
//! ("persistent"); both use the same thresholds.

use vstd::prelude::*;

verus! {

pub const INSTANCE_LIFETIME_THRESHOLD: u32 = 100_000;
pub const INSTANCE_BUMP_AMOUNT: u32 = 200_000;
pub const PERSISTENT_LIFETIME_THRESHOLD: u32 = 100_000;
pub const PERSISTENT_BUMP_AMOUNT: u32 = 200_000;
pub const MAX_PAGE_SIZE: u32 = 50;

/// The bump policy: a lifetime below the threshold is extended to the bump
/// amount; one at or above it is left alone.
pub open spec fn bumped_ttl(ttl: u32, threshold: u32, extend_to: u32) -> u32 {
    if ttl < threshold {
        extend_to
    } else {
        ttl
    }
}

/// Lifetime of a durable-record entry after one touch.
pub open spec fn bumped_persistent(ttl: u32) -> u32 {
    bumped_ttl(ttl, PERSISTENT_LIFETIME_THRESHOLD, PERSISTENT_BUMP_AMOUNT)
}

/// Lifetime of the configuration class after one touch.
pub open spec fn bumped_instance(ttl: u32) -> u32 {
    bumped_ttl(ttl, INSTANCE_LIFETIME_THRESHOLD, INSTANCE_BUMP_AMOUNT)
}

/// A lifetime that was touched zero or more times during an operation.
pub open spec fn ttl_evolved(before: u32, after: u32, threshold: u32, extend_to: u32) -> bool {
    after == before || after == bumped_ttl(before, threshold, extend_to)
}

pub fn bump_persistent_ttl(ttl: u32) -> (r: u32)
    ensures
        r == bumped_persistent(ttl),
{
    if ttl < PERSISTENT_LIFETIME_THRESHOLD {
        PERSISTENT_BUMP_AMOUNT
    } else {
        ttl
    }
}

pub fn bump_instance_ttl(ttl: u32) -> (r: u32)
    ensures
        r == bumped_instance(ttl),
{
    if ttl < INSTANCE_LIFETIME_THRESHOLD {
        INSTANCE_BUMP_AMOUNT
    } else {
        ttl
    }
}

} // verus!
