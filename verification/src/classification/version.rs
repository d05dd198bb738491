//! The data-classification contract identity and its hard limits.

use vstd::prelude::*;

verus! {

/// The data-classification contract family identifier.
pub const FAMILY: &'static str = "dev.lekalo.data-classification";

/// The exact data-classification contract version.
pub const VERSION: &'static str = "0.4.0";

/// The exact contract identity: family and version joined with `@`.
pub const IDENTITY: &'static str = "dev.lekalo.data-classification@0.4.0";

/// The exact wire discriminator of the data-classification contract.
pub const SCHEMA_VERSION: &'static str = "lekalo/data-classification/v0.4.0";

/// The exact IR identity this attachment binds (`irRef`).
pub const IR_IDENTITY: &'static str = "dev.lekalo.ir@0.2.16";

/// The exact Model version this attachment binds (`modelRef`).
pub const MODEL_VERSION: &'static str = "0.2.16";

/// The exact IR version this attachment binds (`irRef`).
pub const IR_VERSION: &'static str = "0.2.16";

/// The maximum number of classification entries one attachment may carry.
pub const MAX_CLASSIFICATIONS: usize = 4096;

/// The maximum number of declassification grants one attachment may carry.
pub const MAX_DECLASSIFICATIONS: usize = 256;

/// The maximum number of open questions one attachment may carry.
pub const MAX_OPEN_QUESTIONS: usize = 256;

/// The maximum number of labels one classification entry may carry.
pub const MAX_LABELS: usize = 16;

/// The maximum number of condition tokens one grant may carry.
pub const MAX_CONDITIONS: usize = 8;

/// The maximum number of subject path segments (semantic id + fields).
pub const MAX_SUBJECT_SEGMENTS: usize = 3;

/// The maximum size in bytes of one canonical attachment payload.
pub const MAX_CANONICAL_BYTES: usize = 1024 * 1024;

/// The maximum size in bytes of one accepted attachment document.
pub const MAX_DOC_BYTES: usize = 8 * 1024 * 1024;

/// The maximum size in bytes of one canonical export payload.
pub const MAX_EXPORT_BYTES: usize = 32 * 1024 * 1024;

} // verus!
