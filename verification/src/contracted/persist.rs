//! The decisions around the persisted registry bytes: the byte bound,
//! the schema identity, and the exact canonical re-rendering a stored
//! registry must equal; then the identity and project a loaded registry
//! must carry. Decoding and rendering the JSON itself happen where the
//! file is read and written.

use vstd::prelude::*;
use crate::diagnostics::set::DiagnosticSet;
use crate::text::{byte_len, str_eq};
use super::diagnostic::{declaration_limit_set, registry_io_set, token_set};
use super::types::ConformedRegistry;
use super::version::{IDENTITY, MAX_REGISTRY_BYTES, MODE, SCHEMA_VERSION};
use super::wire::{RefusalView, refusal_set};

verus! {

/// Whether a set is the registry-io refusal with the given detail.
pub open spec fn io_refusal(e: Seq<crate::diagnostics::item::DiagnosticView>, detail: Seq<char>) -> bool {
    token_set(e, "contracted.registry-io"@, None, "detail"@, detail)
}

/// Settle stored registry bytes: refused over the byte bound, when they
/// do not decode, under a foreign schema, when the decoded registry
/// cannot be rendered or renders over the bound, and when its canonical
/// rendering is not exactly the stored bytes; otherwise the decoded
/// registry. `decoded` is what the bytes decode to and `canonical` the
/// rendering of that registry.
pub fn settle_registry_bytes(bytes: &[u8], decoded: Option<ConformedRegistry>, canonical: Option<String>)
    -> (r: Result<ConformedRegistry, DiagnosticSet>)
    ensures
        if bytes@.len() > MAX_REGISTRY_BYTES {
            r matches Err(e) && refusal_set(e@, RefusalView::Limit("registry-bytes"@, bytes@.len()))
        } else if decoded is None {
            r matches Err(e) && io_refusal(e@, "registry-malformed"@)
        } else if decoded.unwrap().schema_version@ != SCHEMA_VERSION@ {
            r matches Err(e) && io_refusal(e@, "registry-identity"@)
        } else if canonical is None {
            r matches Err(e) && io_refusal(e@, "registry-unserializable"@)
        } else if byte_len(canonical.unwrap()@) > MAX_REGISTRY_BYTES {
            r matches Err(e) && refusal_set(e@, RefusalView::Limit("registry-bytes"@, byte_len(canonical.unwrap()@)))
        } else if vstd::utf8::encode_utf8(canonical.unwrap()@) != bytes@ {
            r matches Err(e) && io_refusal(e@, "registry-noncanonical"@)
        } else {
            r == Ok::<ConformedRegistry, DiagnosticSet>(decoded.unwrap())
        },
{
    if bytes.len() > MAX_REGISTRY_BYTES {
        return Err(declaration_limit_set("registry-bytes", bytes.len()));
    }
    let registry = match decoded {
        Some(x) => x,
        None => return Err(registry_io_set("registry-malformed")),
    };
    if !str_eq(registry.schema_version.as_str(), SCHEMA_VERSION) {
        return Err(registry_io_set("registry-identity"));
    }
    let rendered = match canonical {
        Some(s) => s,
        None => return Err(registry_io_set("registry-unserializable")),
    };
    let rendered_bytes = rendered.as_str().as_bytes();
    if rendered_bytes.len() > MAX_REGISTRY_BYTES {
        return Err(declaration_limit_set("registry-bytes", rendered_bytes.len()));
    }
    if !same_bytes(rendered_bytes, bytes) {
        return Err(registry_io_set("registry-noncanonical"));
    }
    Ok(registry)
}

/// Whether two byte strings are equal.
fn same_bytes(a: &[u8], b: &[u8]) -> (r: bool)
    ensures
        r == (a@ == b@),
{
    if a.len() != b.len() {
        return false;
    }
    let mut i: usize = 0;
    while i < a.len()
        invariant
            a@.len() == b@.len(),
            i <= a@.len(),
            forall|j: int| 0 <= j < i ==> a@[j] == b@[j],
        decreases a@.len() - i,
    {
        if a[i] != b[i] {
            return false;
        }
        i = i + 1;
    }
    assert(a@ =~= b@);
    true
}

/// Frame a rendered registry: refused when it could not be rendered or
/// renders over the byte bound.
pub fn frame_registry_rendering(rendered: Option<String>) -> (r: Result<String, DiagnosticSet>)
    ensures
        match rendered {
            None => r matches Err(e) && io_refusal(e@, "registry-unserializable"@),
            Some(s) => if byte_len(s@) > MAX_REGISTRY_BYTES {
                r matches Err(e) && refusal_set(e@, RefusalView::Limit("registry-bytes"@, byte_len(s@)))
            } else {
                r matches Ok(t) && t@ == s@
            },
        },
{
    match rendered {
        None => Err(registry_io_set("registry-unserializable")),
        Some(s) => {
            let n = s.as_str().as_bytes().len();
            if n > MAX_REGISTRY_BYTES {
                Err(declaration_limit_set("registry-bytes", n))
            } else {
                Ok(s)
            }
        },
    }
}

/// Accept a loaded registry for the project it is read for: refused
/// under a foreign identity or mode, or for another project.
pub fn accept_loaded_registry(registry: ConformedRegistry, declared_project: &str)
    -> (r: Result<ConformedRegistry, DiagnosticSet>)
    ensures
        if registry.mode@ != MODE@ || registry.identity@ != IDENTITY@ {
            r matches Err(e) && io_refusal(e@, "registry-identity"@)
        } else if registry.project@ != declared_project@ {
            r matches Err(e) && io_refusal(e@, "project-mismatch"@)
        } else {
            r == Ok::<ConformedRegistry, DiagnosticSet>(registry)
        },
{
    if !str_eq(registry.mode.as_str(), MODE) || !str_eq(registry.identity.as_str(), IDENTITY) {
        return Err(registry_io_set("registry-identity"));
    }
    if !str_eq(registry.project.as_str(), declared_project) {
        return Err(registry_io_set("project-mismatch"));
    }
    Ok(registry)
}

} // verus!
