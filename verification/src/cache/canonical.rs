//! Canonical bytes and digests of the cache: compact UTF-8 JSON with
//! byte-sorted object keys, and `sha256:<64 lowercase hex>` digests
//! over such bytes.

pub use crate::digest::{is_digest, sha256_digest};
pub use crate::digest::sha256_hex as hex_digest;
