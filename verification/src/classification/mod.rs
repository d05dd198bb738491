//! Data classification: a closed, versioned project attachment binding
//! every classification subject to its closed data kind, with secure
//! defaults, subject-bound declassification grants, and the governing
//! classification policy.

pub mod types;
pub mod version;
pub mod diagnostic;
pub mod wire;
pub mod validate;
pub mod resolve;
pub mod policy;
pub mod canonical;
pub mod reorder;
