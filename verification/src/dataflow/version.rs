//! The data-flow report contract identity and its hard denial limits.
//! The report is its own derived-artifact family, bound to the exact
//! canonical digests of its classification and policy inputs.

use vstd::prelude::*;

verus! {

/// The data-flow report family identifier.
pub const FAMILY: &'static str = "dev.lekalo.data-flow-report";

/// The exact data-flow report contract version.
pub const VERSION: &'static str = "0.4.0";

/// The exact contract identity: family and version joined with `@`.
pub const IDENTITY: &'static str = "dev.lekalo.data-flow-report@0.4.0";

/// The exact wire discriminator of the data-flow report contract.
pub const SCHEMA_VERSION: &'static str = "lekalo/data-flow-report/v0.4.0";

/// The exact IR identity the report binds.
pub const IR_IDENTITY: &'static str = "dev.lekalo.ir@0.2.16";

/// The exact Model version the report binds.
pub const MODEL_VERSION: &'static str = "0.2.16";

/// The maximum number of flows one report may carry.
pub const MAX_FLOWS: usize = 8192;

/// The maximum number of findings one report may carry.
pub const MAX_FINDINGS: usize = 1024;

/// The maximum number of unknowns one report may carry.
pub const MAX_UNKNOWNS: usize = 1024;

/// The maximum number of path hops one flow may carry.
pub const MAX_PATH_HOPS: usize = 64;

/// The maximum number of open questions one report may carry.
pub const MAX_OPEN_QUESTIONS: usize = 256;

/// The maximum size in bytes of one canonical report payload.
pub const MAX_CANONICAL_BYTES: usize = 8 * 1024 * 1024;

} // verus!
