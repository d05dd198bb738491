//! Context capsules: the contract identity and limits, the fixed
//! offline token estimator, and the capsule planner.

pub mod version;
pub mod estimate;
pub mod select;
pub mod model;
pub mod diagnostic;
pub mod capsule;
