//! Lekalo core: closed contract vocabularies, attachment parsing,
//! subject resolution, and data-flow reporting, with their laws.

pub mod text;
pub mod json;
pub mod digest;
pub mod ids;
pub mod sorting;
pub mod diagnostics;
pub mod classification;
pub mod context;
pub mod dataflow;
pub mod contracted;
pub mod cache;
