//! Bounded limits of the cache, checked before any allocation.

use vstd::prelude::*;

verus! {

/// Maximum entries accepted in one store.
pub const MAX_ENTRIES: usize = 1_000_000;

/// Maximum total payload bytes accepted in one store (256 MiB).
pub const MAX_TOTAL_PAYLOAD_BYTES: usize = 268_435_456;

/// Maximum bytes accepted for one record payload (8 MiB).
pub const MAX_PAYLOAD_BYTES: usize = 8_388_608;

/// Maximum quarantined stores kept before the oldest are dropped.
pub const MAX_QUARANTINE_ITEMS: usize = 8;

/// The bounded busy timeout of the single writer, in milliseconds.
pub const LOCK_WAIT_MILLIS: u64 = 5_000;

} // verus!
