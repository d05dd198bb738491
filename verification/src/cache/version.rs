//! The cache contract identity, independent of the product release and
//! of every other contract version.

use vstd::prelude::*;

verus! {

/// The cache contract identity.
pub const IDENTITY: &'static str = "dev.lekalo.cache@1.0.0";

/// The cache contract discriminator.
pub const SCHEMA_VERSION: &'static str = "lekalo/cache/v1.0.0";

/// The revision of the mirrored decode pipeline; part of every record
/// binding so that stale pipelines never produce trusted hits.
pub const PIPELINE_REVISION: u64 = 1;

/// The one storage backend.
pub const BACKEND: &'static str = "sqlite";

} // verus!
