//! Contracted mode: the conformed-binding registry identity and its
//! grammars, the closed binding vocabulary, and the drift diagnostics.

pub mod version;
pub mod diagnostic;
pub mod types;
pub mod wire;
pub mod update;
pub mod attach;
pub mod persist;
pub mod check;
