//! The machine-readable diagnostic contract: closed vocabulary,
//! validated identities, the embedded rule registry, registry-backed
//! construction, normalized sets, and the human projection.

pub mod types;
pub mod id;
pub mod item;
pub mod registry;
pub mod set;
pub mod render;
pub mod provider;
pub mod normalize;
