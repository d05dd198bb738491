//! Data-flow reports: the contract identity and limits, the closed flow
//! vocabulary, the sink and gate analysis, and the report verdict.

pub mod version;
pub mod types;
pub mod analyze;
pub mod diagnostic;
pub mod report;
