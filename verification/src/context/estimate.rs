//! The fixed offline token estimator `dev.lekalo.estimator.chars-4@1.0.0`:
//! a content string of `n` Unicode scalars estimates `max(1, ceil(n / 4))`
//! tokens and empty content estimates zero. The profile digest pins the
//! rule: `sha256` over the exact [`SPEC`] bytes.

use vstd::prelude::*;
use vstd::string::StrSliceExecFns;
use crate::digest::{digest_text, is_digest_text, sha256_digest};

verus! {

/// The exact estimator rule text the digest is computed over.
pub const SPEC: &'static str = "family=dev.lekalo.estimator profile=chars-4 version=1.0.0 rule=tokens:max(1,ceil(scalars/4)) unit=unicode-scalar scope=per-typed-fact content=semantic-values-joined-by-space offline=true deterministic=true format-independent=true";

/// The estimator profile identity (family and version joined with `@`).
pub const IDENTITY: &'static str = "dev.lekalo.estimator.chars-4@1.0.0";

/// The estimator profile version.
pub const VERSION: &'static str = "1.0.0";

/// The estimate for a content of `n` scalars.
pub open spec fn spec_tokens(n: nat) -> nat {
    if n == 0 { 0 } else { ((n + 3) / 4) as nat }
}

/// The `sha256:` digest over the exact rule text.
pub fn digest() -> (r: String)
    ensures
        r@ == digest_text(vstd::utf8::encode_utf8(SPEC@)),
        is_digest_text(r@),
{
    sha256_digest(SPEC.as_bytes())
}

/// Estimate the token count of one fact content string: zero for empty
/// content, else `ceil(scalars / 4)`, which is at least one.
pub fn tokens(content: &str) -> (r: u64)
    ensures
        r == spec_tokens(content@.len()),
        content@.len() > 0 ==> r >= 1,
{
    let scalars = content.unicode_len();
    if scalars == 0 {
        return 0;
    }
    let q = (scalars / 4) as u64;
    if scalars % 4 == 0 {
        q
    } else {
        q + 1
    }
}

} // verus!
