//! The context-capsule contract identity and its hard limits. The
//! context contract version is its own family, independent of the
//! product release and of the Model, IR, graph, and diagnostic versions.

use vstd::prelude::*;

verus! {

/// The context contract family identifier.
pub const FAMILY: &'static str = "dev.lekalo.context";

/// The exact context contract version.
pub const VERSION: &'static str = "1.0.0";

/// The exact contract identity: family and version joined with `@`.
pub const IDENTITY: &'static str = "dev.lekalo.context@1.0.0";

/// The exact wire discriminator of the context contract.
pub const SCHEMA_VERSION: &'static str = "lekalo/context/v1.0.0";

/// The maximum token budget one capsule request may carry.
pub const MAX_BUDGET_TOKENS: u64 = 1_000_000;

/// The maximum number of roots one capsule may carry.
pub const MAX_ROOTS: usize = 128;

/// The maximum number of manifest rows one capsule may carry.
pub const MAX_MANIFEST_ITEMS: usize = 50_000;

/// The maximum depth of the supporting closure walk beyond the direct
/// dependencies.
pub const MAX_CLOSURE_DEPTH: usize = 2;

/// The maximum number of nodes the supporting closure may visit.
pub const MAX_CLOSURE_NODES: usize = 2_000;

/// The maximum number of edges the supporting closure may collect.
pub const MAX_CLOSURE_EDGES: usize = 10_000;

} // verus!
