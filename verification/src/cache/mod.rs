//! The typed build cache: canonical bytes and digests, closed keys,
//! and the self-describing record envelope with its validation.

pub mod version;
pub mod limits;
pub mod canonical;
pub mod key;
pub mod record;
pub mod evict;
