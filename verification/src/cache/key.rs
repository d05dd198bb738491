//! Typed cache keys and their digests. A key is a closed, typed
//! identity, never a path string or a database row; every downstream
//! key embeds its upstream digests, so a changed source byte invalidates
//! exactly the downstream closure. The key digest is SHA-256 over the
//! canonical key bytes.

use vstd::prelude::*;
use crate::digest::{digest_text, is_digest, is_digest_text, sha256_digest};
use crate::json::{JsonNumber, JsonTree, JsonValue, NumberTree, push_entry, render_json, rendered_json, text_trees,
    text_value, tree};
use crate::text::{byte_len, str_eq, str_lt, text_lt};
use super::limits::MAX_ENTRIES;

verus! {

/// The closed record-kind vocabulary.
#[derive(Clone, Copy, Debug, PartialEq, Eq, Structural)]
pub enum RecordKind {
    /// `source`
    Source,
    /// `parsed-fragment`
    ParsedFragment,
    /// `ir-fragment`
    IrFragment,
    /// `graph-fragment`
    GraphFragment,
    /// `effect-fragment`
    EffectFragment,
    /// `adapter-capability`
    AdapterCapability,
    /// `adapter-result`
    AdapterResult,
    /// `artifact-manifest-key`
    ArtifactManifestKey,
    /// `context-key`
    ContextKey,
}

impl RecordKind {
    /// The wire spelling of each member.
    pub open spec fn spec_text(self) -> Seq<char> {
        match self {
            RecordKind::Source => "source"@,
            RecordKind::ParsedFragment => "parsed-fragment"@,
            RecordKind::IrFragment => "ir-fragment"@,
            RecordKind::GraphFragment => "graph-fragment"@,
            RecordKind::EffectFragment => "effect-fragment"@,
            RecordKind::AdapterCapability => "adapter-capability"@,
            RecordKind::AdapterResult => "adapter-result"@,
            RecordKind::ArtifactManifestKey => "artifact-manifest-key"@,
            RecordKind::ContextKey => "context-key"@,
        }
    }

    /// The kebab-case wire spelling.
    pub fn as_str(self) -> (r: &'static str)
        ensures
            r@ == self.spec_text(),
    {
        match self {
            RecordKind::Source => "source",
            RecordKind::ParsedFragment => "parsed-fragment",
            RecordKind::IrFragment => "ir-fragment",
            RecordKind::GraphFragment => "graph-fragment",
            RecordKind::EffectFragment => "effect-fragment",
            RecordKind::AdapterCapability => "adapter-capability",
            RecordKind::AdapterResult => "adapter-result",
            RecordKind::ArtifactManifestKey => "artifact-manifest-key",
            RecordKind::ContextKey => "context-key",
        }
    }

    /// The member spelled `t`, if any.
    pub open spec fn spec_parse(t: Seq<char>) -> Option<RecordKind> {
        if t == "source"@ {
            Some(RecordKind::Source)
        } else if t == "parsed-fragment"@ {
            Some(RecordKind::ParsedFragment)
        } else if t == "ir-fragment"@ {
            Some(RecordKind::IrFragment)
        } else if t == "graph-fragment"@ {
            Some(RecordKind::GraphFragment)
        } else if t == "effect-fragment"@ {
            Some(RecordKind::EffectFragment)
        } else if t == "adapter-capability"@ {
            Some(RecordKind::AdapterCapability)
        } else if t == "adapter-result"@ {
            Some(RecordKind::AdapterResult)
        } else if t == "artifact-manifest-key"@ {
            Some(RecordKind::ArtifactManifestKey)
        } else if t == "context-key"@ {
            Some(RecordKind::ContextKey)
        } else {
            None
        }
    }

    /// Parse the wire spelling back to the closed kind.
    pub fn parse(text: &str) -> (r: Option<RecordKind>)
        ensures
            r == RecordKind::spec_parse(text@),
    {
        if str_eq(text, "source") {
            Some(RecordKind::Source)
        } else if str_eq(text, "parsed-fragment") {
            Some(RecordKind::ParsedFragment)
        } else if str_eq(text, "ir-fragment") {
            Some(RecordKind::IrFragment)
        } else if str_eq(text, "graph-fragment") {
            Some(RecordKind::GraphFragment)
        } else if str_eq(text, "effect-fragment") {
            Some(RecordKind::EffectFragment)
        } else if str_eq(text, "adapter-capability") {
            Some(RecordKind::AdapterCapability)
        } else if str_eq(text, "adapter-result") {
            Some(RecordKind::AdapterResult)
        } else if str_eq(text, "artifact-manifest-key") {
            Some(RecordKind::ArtifactManifestKey)
        } else if str_eq(text, "context-key") {
            Some(RecordKind::ContextKey)
        } else {
            None
        }
    }
}

/// Every `RecordKind` spelling parses back to its member, and nothing
/// else parses to that member.
pub proof fn lemma_record_kind_round_trip(x: RecordKind, t: Seq<char>)
    ensures
        RecordKind::spec_parse(x.spec_text()) == Some(x),
        RecordKind::spec_parse(t) == Some(x) ==> t == x.spec_text(),
{
    reveal_strlit("source");
    reveal_strlit("parsed-fragment");
    reveal_strlit("ir-fragment");
    reveal_strlit("graph-fragment");
    reveal_strlit("effect-fragment");
    reveal_strlit("adapter-capability");
    reveal_strlit("adapter-result");
    reveal_strlit("artifact-manifest-key");
    reveal_strlit("context-key");
    assert("source"@.len() == 6);
    assert("parsed-fragment"@.len() == 15);
    assert("ir-fragment"@.len() == 11);
    assert("graph-fragment"@.len() == 14);
    assert("effect-fragment"@.len() == 15);
    assert("adapter-capability"@.len() == 18);
    assert("adapter-result"@.len() == 14);
    assert("artifact-manifest-key"@.len() == 21);
    assert("context-key"@.len() == 11);
    assert("parsed-fragment"@[0] == 'p');
    assert("effect-fragment"@[0] == 'e');
    assert("ir-fragment"@[0] == 'i');
    assert("context-key"@[0] == 'c');
    assert("graph-fragment"@[0] == 'g');
    assert("adapter-result"@[0] == 'a');
}

/// The closed typed key of one cache entry.
#[derive(Clone, Debug, PartialEq, Eq)]
pub enum Key {
    Source { path: String, raw_digest: String, normalized_digest: String },
    ParsedFragment { path: String, raw_digest: String },
    IrFragment { model_version: String, parsed_digests: Vec<String> },
    GraphFragment { ir_digest: String },
    EffectFragment { graph_digest: String },
    AdapterCapability { adapter_id: String, protocol_version: String, executable_digest: String },
    AdapterResult { capability_digest: String, input_digest: String, profile_digest: String },
    ArtifactManifest { manifest_schema_digest: String, lock_revision: String, artifact_digest: String },
    Context { context_schema_digest: String, scope_digest: String, profile_digest: String, budget: u64 },
}

/// Maximum source-path bytes accepted inside one key.
pub const MAX_KEY_PATH_BYTES: usize = 512;

/// The texts of a list of strings.
pub open spec fn string_texts(s: Seq<String>) -> Seq<Seq<char>> {
    s.map_values(|t: String| t@)
}

/// The record kind of each key variant.
pub open spec fn key_kind(k: Key) -> RecordKind {
    match k {
        Key::Source { .. } => RecordKind::Source,
        Key::ParsedFragment { .. } => RecordKind::ParsedFragment,
        Key::IrFragment { .. } => RecordKind::IrFragment,
        Key::GraphFragment { .. } => RecordKind::GraphFragment,
        Key::EffectFragment { .. } => RecordKind::EffectFragment,
        Key::AdapterCapability { .. } => RecordKind::AdapterCapability,
        Key::AdapterResult { .. } => RecordKind::AdapterResult,
        Key::ArtifactManifest { .. } => RecordKind::ArtifactManifestKey,
        Key::Context { .. } => RecordKind::ContextKey,
    }
}

/// The content of a text.
pub open spec fn text_tree(t: Seq<char>) -> JsonTree {
    JsonTree::Text(t)
}

/// The canonical members of a key: its kind tag and its camelCase
/// fields, in byte order of their names.
pub open spec fn key_members(k: Key) -> Seq<(Seq<char>, JsonTree)> {
    let kind = ("kind"@, text_tree(key_kind(k).spec_text()));
    match k {
        Key::Source { path, raw_digest, normalized_digest } => seq![kind,
            ("normalizedDigest"@, text_tree(normalized_digest@)), ("path"@, text_tree(path@)),
            ("rawDigest"@, text_tree(raw_digest@))],
        Key::ParsedFragment { path, raw_digest } => seq![kind, ("path"@, text_tree(path@)),
            ("rawDigest"@, text_tree(raw_digest@))],
        Key::IrFragment { model_version, parsed_digests } => seq![kind,
            ("modelVersion"@, text_tree(model_version@)),
            ("parsedDigests"@, JsonTree::Array(text_trees(parsed_digests@)))],
        Key::GraphFragment { ir_digest } => seq![("irDigest"@, text_tree(ir_digest@)), kind],
        Key::EffectFragment { graph_digest } => seq![("graphDigest"@, text_tree(graph_digest@)), kind],
        Key::AdapterCapability { adapter_id, protocol_version, executable_digest } => seq![
            ("adapterId"@, text_tree(adapter_id@)), ("executableDigest"@, text_tree(executable_digest@)), kind,
            ("protocolVersion"@, text_tree(protocol_version@))],
        Key::AdapterResult { capability_digest, input_digest, profile_digest } => seq![
            ("capabilityDigest"@, text_tree(capability_digest@)), ("inputDigest"@, text_tree(input_digest@)), kind,
            ("profileDigest"@, text_tree(profile_digest@))],
        Key::ArtifactManifest { manifest_schema_digest, lock_revision, artifact_digest } => seq![
            ("artifactDigest"@, text_tree(artifact_digest@)), kind, ("lockRevision"@, text_tree(lock_revision@)),
            ("manifestSchemaDigest"@, text_tree(manifest_schema_digest@))],
        Key::Context { context_schema_digest, scope_digest, profile_digest, budget } => seq![
            ("budget"@, JsonTree::Number(NumberTree::Unsigned(budget))),
            ("contextSchemaDigest"@, text_tree(context_schema_digest@)), kind,
            ("profileDigest"@, text_tree(profile_digest@)), ("scopeDigest"@, text_tree(scope_digest@))],
    }
}

/// The canonical key bytes: the writer's compact text of the key's
/// content.
pub open spec fn key_text(k: Key) -> Seq<char> {
    rendered_json(JsonTree::Object(key_members(k)))
}

/// The key digest: SHA-256 over the UTF-8 canonical key bytes.
pub open spec fn key_digest_text(k: Key) -> Seq<char> {
    digest_text(vstd::utf8::encode_utf8(key_text(k)))
}

/// A printable ASCII character other than the backslash.
pub open spec fn is_path_char(c: char) -> bool {
    '!' <= c && c <= '~' && c != '\\'
}

/// A key path: non-empty, at most `MAX_KEY_PATH_BYTES` bytes, printable
/// ASCII without backslashes.
pub open spec fn path_ok(p: Seq<char>) -> bool {
    &&& 1 <= byte_len(p) <= MAX_KEY_PATH_BYTES
    &&& forall|i: int| 0 <= i < p.len() ==> is_path_char(#[trigger] p[i])
}

/// Strictly increasing byte order between neighbours (sorted, no
/// duplicates).
pub open spec fn sorted_unique(s: Seq<Seq<char>>) -> bool {
    forall|i: int| #![trigger s[i]] 1 <= i < s.len() ==> text_lt(s[i - 1], s[i])
}

/// The bounded, well-formed subset every key satisfies before the store
/// touches it.
pub open spec fn key_well_formed(k: Key) -> bool {
    match k {
        Key::Source { path, raw_digest, normalized_digest } =>
            path_ok(path@) && is_digest_text(raw_digest@) && is_digest_text(normalized_digest@),
        Key::ParsedFragment { path, raw_digest } => path_ok(path@) && is_digest_text(raw_digest@),
        Key::IrFragment { model_version, parsed_digests } => {
            &&& (model_version@ == "0.1.0"@ || model_version@ == "1.0.0"@)
            &&& parsed_digests@.len() >= 1
            &&& parsed_digests@.len() <= MAX_ENTRIES
            &&& forall|i: int| 0 <= i < parsed_digests@.len() ==> is_digest_text(#[trigger] parsed_digests@[i]@)
            &&& sorted_unique(string_texts(parsed_digests@))
        },
        Key::GraphFragment { ir_digest } => is_digest_text(ir_digest@),
        Key::EffectFragment { graph_digest } => is_digest_text(graph_digest@),
        Key::AdapterCapability { adapter_id, protocol_version, executable_digest } => {
            &&& 1 <= byte_len(adapter_id@) <= 256
            &&& 1 <= byte_len(protocol_version@) <= 64
            &&& is_digest_text(executable_digest@)
        },
        Key::AdapterResult { capability_digest, input_digest, profile_digest } =>
            is_digest_text(capability_digest@) && is_digest_text(input_digest@) && is_digest_text(profile_digest@),
        Key::ArtifactManifest { manifest_schema_digest, lock_revision, artifact_digest } =>
            is_digest_text(manifest_schema_digest@) && is_digest_text(lock_revision@) && is_digest_text(artifact_digest@),
        Key::Context { context_schema_digest, scope_digest, profile_digest, budget } => {
            &&& is_digest_text(context_schema_digest@)
            &&& is_digest_text(scope_digest@)
            &&& is_digest_text(profile_digest@)
            &&& 1 <= budget <= 10_000_000
        },
    }
}

/// Whether a key path is well formed.
fn check_path(path: &str) -> (r: bool)
    ensures
        r == path_ok(path@),
{
    let n = path.as_bytes().len();
    if n == 0 || n > MAX_KEY_PATH_BYTES {
        return false;
    }
    let chars = crate::text::chars_of(path);
    let mut i: usize = 0;
    while i < chars.len()
        invariant
            chars@ == path@,
            i <= chars@.len(),
            forall|j: int| 0 <= j < i ==> is_path_char(#[trigger] chars@[j]),
        decreases chars@.len() - i,
    {
        let c = chars[i];
        if !('!' <= c && c <= '~' && c != '\\') {
            return false;
        }
        i = i + 1;
    }
    true
}

/// Whether a text is non-empty and at most `limit` UTF-8 bytes.
fn bounded_text(text: &str, limit: usize) -> (r: bool)
    ensures
        r == (1 <= byte_len(text@) <= limit),
{
    let n = text.as_bytes().len();
    n >= 1 && n <= limit
}

/// Whether the list is strictly sorted by byte order with no
/// duplicates.
pub fn is_sorted_unique(values: &[String]) -> (r: bool)
    ensures
        r == sorted_unique(string_texts(values@)),
{
    let ghost s = string_texts(values@);
    let mut i: usize = 1;
    while i < values.len()
        invariant
            s == string_texts(values@),
            s.len() == values@.len(),
            1 <= i,
            forall|j: int| #![trigger s[j]] 1 <= j < i && j < s.len() ==> text_lt(s[j - 1], s[j]),
        decreases values@.len() - i,
    {
        if !str_lt(values[i - 1].as_str(), values[i].as_str()) {
            assert(s[i as int] == values@[i as int]@);
            assert(s[i - 1] == values@[i - 1]@);
            return false;
        }
        assert(s[i as int] == values@[i as int]@);
        assert(s[i - 1] == values@[i - 1]@);
        i = i + 1;
    }
    true
}

/// Whether every listed text is a digest.
fn all_digests(values: &[String]) -> (r: bool)
    ensures
        r == forall|i: int| 0 <= i < values@.len() ==> is_digest_text(#[trigger] values@[i]@),
{
    let mut i: usize = 0;
    while i < values.len()
        invariant
            i <= values@.len(),
            forall|j: int| 0 <= j < i ==> is_digest_text(#[trigger] values@[j]@),
        decreases values@.len() - i,
    {
        if !is_digest(values[i].as_str()) {
            return false;
        }
        i = i + 1;
    }
    true
}

impl Key {
    /// The record kind this key belongs to.
    pub fn kind(&self) -> (r: RecordKind)
        ensures
            r == key_kind(*self),
    {
        match self {
            Key::Source { .. } => RecordKind::Source,
            Key::ParsedFragment { .. } => RecordKind::ParsedFragment,
            Key::IrFragment { .. } => RecordKind::IrFragment,
            Key::GraphFragment { .. } => RecordKind::GraphFragment,
            Key::EffectFragment { .. } => RecordKind::EffectFragment,
            Key::AdapterCapability { .. } => RecordKind::AdapterCapability,
            Key::AdapterResult { .. } => RecordKind::AdapterResult,
            Key::ArtifactManifest { .. } => RecordKind::ArtifactManifestKey,
            Key::Context { .. } => RecordKind::ContextKey,
        }
    }

    /// The canonical wire form of the key.
    pub fn wire(&self) -> (r: JsonValue)
        ensures
            tree(r) == JsonTree::Object(key_members(*self)),
    {
        let ghost want = key_members(*self);
        let kind = text_value(self.kind().as_str());
        let mut f: Vec<(String, JsonValue)> = Vec::new();
        assert(crate::json::field_trees(f@) =~= want.take(0));
        match self {
            Key::Source { path, raw_digest, normalized_digest } => {
                push_entry(&mut f, "kind", kind, Ghost(want));
                push_entry(&mut f, "normalizedDigest", text_value(normalized_digest.as_str()), Ghost(want));
                push_entry(&mut f, "path", text_value(path.as_str()), Ghost(want));
                push_entry(&mut f, "rawDigest", text_value(raw_digest.as_str()), Ghost(want));
            },
            Key::ParsedFragment { path, raw_digest } => {
                push_entry(&mut f, "kind", kind, Ghost(want));
                push_entry(&mut f, "path", text_value(path.as_str()), Ghost(want));
                push_entry(&mut f, "rawDigest", text_value(raw_digest.as_str()), Ghost(want));
            },
            Key::IrFragment { model_version, parsed_digests } => {
                push_entry(&mut f, "kind", kind, Ghost(want));
                push_entry(&mut f, "modelVersion", text_value(model_version.as_str()), Ghost(want));
                let digests = crate::json::text_array(parsed_digests);
                push_entry(&mut f, "parsedDigests", digests, Ghost(want));
            },
            Key::GraphFragment { ir_digest } => {
                push_entry(&mut f, "irDigest", text_value(ir_digest.as_str()), Ghost(want));
                push_entry(&mut f, "kind", kind, Ghost(want));
            },
            Key::EffectFragment { graph_digest } => {
                push_entry(&mut f, "graphDigest", text_value(graph_digest.as_str()), Ghost(want));
                push_entry(&mut f, "kind", kind, Ghost(want));
            },
            Key::AdapterCapability { adapter_id, protocol_version, executable_digest } => {
                push_entry(&mut f, "adapterId", text_value(adapter_id.as_str()), Ghost(want));
                push_entry(&mut f, "executableDigest", text_value(executable_digest.as_str()), Ghost(want));
                push_entry(&mut f, "kind", kind, Ghost(want));
                push_entry(&mut f, "protocolVersion", text_value(protocol_version.as_str()), Ghost(want));
            },
            Key::AdapterResult { capability_digest, input_digest, profile_digest } => {
                push_entry(&mut f, "capabilityDigest", text_value(capability_digest.as_str()), Ghost(want));
                push_entry(&mut f, "inputDigest", text_value(input_digest.as_str()), Ghost(want));
                push_entry(&mut f, "kind", kind, Ghost(want));
                push_entry(&mut f, "profileDigest", text_value(profile_digest.as_str()), Ghost(want));
            },
            Key::ArtifactManifest { manifest_schema_digest, lock_revision, artifact_digest } => {
                push_entry(&mut f, "artifactDigest", text_value(artifact_digest.as_str()), Ghost(want));
                push_entry(&mut f, "kind", kind, Ghost(want));
                push_entry(&mut f, "lockRevision", text_value(lock_revision.as_str()), Ghost(want));
                push_entry(&mut f, "manifestSchemaDigest", text_value(manifest_schema_digest.as_str()), Ghost(want));
            },
            Key::Context { context_schema_digest, scope_digest, profile_digest, budget } => {
                push_entry(&mut f, "budget", JsonValue::Number(JsonNumber::Unsigned(*budget)), Ghost(want));
                push_entry(&mut f, "contextSchemaDigest", text_value(context_schema_digest.as_str()), Ghost(want));
                push_entry(&mut f, "kind", kind, Ghost(want));
                push_entry(&mut f, "profileDigest", text_value(profile_digest.as_str()), Ghost(want));
                push_entry(&mut f, "scopeDigest", text_value(scope_digest.as_str()), Ghost(want));
            },
        }
        proof { crate::json::lemma_object_tree(f, want); }
        JsonValue::Object(f)
    }

    /// The `sha256:<hex>` digest over the canonical key bytes.
    pub fn digest(&self) -> (r: String)
        ensures
            r@ == key_digest_text(*self),
            is_digest_text(r@),
    {
        let w = self.wire();
        let text = render_json(&w);
        sha256_digest(text.as_str().as_bytes())
    }

    /// Validate the bounded, well-formed subset every key satisfies:
    /// digest spellings, path bounds, version and budget ranges, and the
    /// sorted unique parsed-digest set. Malformed content is a miss,
    /// never a trusted hit.
    pub fn is_well_formed(&self) -> (r: bool)
        ensures
            r == key_well_formed(*self),
    {
        match self {
            Key::Source { path, raw_digest, normalized_digest } =>
                check_path(path.as_str()) && is_digest(raw_digest.as_str()) && is_digest(normalized_digest.as_str()),
            Key::ParsedFragment { path, raw_digest } => check_path(path.as_str()) && is_digest(raw_digest.as_str()),
            Key::IrFragment { model_version, parsed_digests } => {
                let version_ok = str_eq(model_version.as_str(), "0.1.0") || str_eq(model_version.as_str(), "1.0.0");
                version_ok && parsed_digests.len() >= 1 && parsed_digests.len() <= MAX_ENTRIES
                    && all_digests(parsed_digests.as_slice()) && is_sorted_unique(parsed_digests.as_slice())
            },
            Key::GraphFragment { ir_digest } => is_digest(ir_digest.as_str()),
            Key::EffectFragment { graph_digest } => is_digest(graph_digest.as_str()),
            Key::AdapterCapability { adapter_id, protocol_version, executable_digest } =>
                bounded_text(adapter_id.as_str(), 256) && bounded_text(protocol_version.as_str(), 64)
                    && is_digest(executable_digest.as_str()),
            Key::AdapterResult { capability_digest, input_digest, profile_digest } =>
                is_digest(capability_digest.as_str()) && is_digest(input_digest.as_str())
                    && is_digest(profile_digest.as_str()),
            Key::ArtifactManifest { manifest_schema_digest, lock_revision, artifact_digest } =>
                is_digest(manifest_schema_digest.as_str()) && is_digest(lock_revision.as_str())
                    && is_digest(artifact_digest.as_str()),
            Key::Context { context_schema_digest, scope_digest, profile_digest, budget } =>
                is_digest(context_schema_digest.as_str()) && is_digest(scope_digest.as_str())
                    && is_digest(profile_digest.as_str()) && 1 <= *budget && *budget <= 10_000_000,
        }
    }
}

} // verus!
