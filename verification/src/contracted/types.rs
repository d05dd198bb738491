//! The typed contracted-mode model: the closed binding vocabularies,
//! the conformed-binding registry records, and the validated adapter
//! declaration document. Source code stays the owner of the
//! implementation; the registry is conformance evidence, never a copy.

use vstd::prelude::*;
use vstd::string::StrSliceExecFns;
use crate::text::{chars_of, find_char, first_index, str_eq};
use super::version::{IDENTITY, MODE, SCHEMA_VERSION};

verus! {

/// The closed definition kinds the registry can bind.
#[derive(Clone, Copy, Debug, PartialEq, Eq, Structural)]
pub enum SymbolKind {
    /// `command`
    Command,
    /// `query`
    Query,
    /// `effect`
    Effect,
    /// `endpoint`
    Endpoint,
    /// `entity`
    Entity,
}

impl SymbolKind {
    /// The wire spelling of each member.
    pub open spec fn spec_text(self) -> Seq<char> {
        match self {
            SymbolKind::Command => "command"@,
            SymbolKind::Query => "query"@,
            SymbolKind::Effect => "effect"@,
            SymbolKind::Endpoint => "endpoint"@,
            SymbolKind::Entity => "entity"@,
        }
    }

    /// The wire spelling.
    pub fn key(self) -> (r: &'static str)
        ensures
            r@ == self.spec_text(),
    {
        match self {
            SymbolKind::Command => "command",
            SymbolKind::Query => "query",
            SymbolKind::Effect => "effect",
            SymbolKind::Endpoint => "endpoint",
            SymbolKind::Entity => "entity",
        }
    }

    /// The member spelled `t`, if any.
    pub open spec fn spec_parse(t: Seq<char>) -> Option<SymbolKind> {
        if t == "command"@ {
            Some(SymbolKind::Command)
        } else if t == "query"@ {
            Some(SymbolKind::Query)
        } else if t == "effect"@ {
            Some(SymbolKind::Effect)
        } else if t == "endpoint"@ {
            Some(SymbolKind::Endpoint)
        } else if t == "entity"@ {
            Some(SymbolKind::Entity)
        } else {
            None
        }
    }

    /// Parse the wire spelling.
    pub fn parse(text: &str) -> (r: Option<SymbolKind>)
        ensures
            r == SymbolKind::spec_parse(text@),
    {
        if str_eq(text, "command") {
            Some(SymbolKind::Command)
        } else if str_eq(text, "query") {
            Some(SymbolKind::Query)
        } else if str_eq(text, "effect") {
            Some(SymbolKind::Effect)
        } else if str_eq(text, "endpoint") {
            Some(SymbolKind::Endpoint)
        } else if str_eq(text, "entity") {
            Some(SymbolKind::Entity)
        } else {
            None
        }
    }
}

/// Every `SymbolKind` spelling parses back to its member, and nothing
/// else parses to that member.
pub proof fn lemma_symbol_kind_round_trip(x: SymbolKind, t: Seq<char>)
    ensures
        SymbolKind::spec_parse(x.spec_text()) == Some(x),
        SymbolKind::spec_parse(t) == Some(x) ==> t == x.spec_text(),
{
    reveal_strlit("command");
    reveal_strlit("query");
    reveal_strlit("effect");
    reveal_strlit("endpoint");
    reveal_strlit("entity");
    assert("command"@.len() == 7);
    assert("query"@.len() == 5);
    assert("effect"@.len() == 6);
    assert("endpoint"@.len() == 8);
    assert("entity"@.len() == 6);
    assert("effect"@[1] == 'f');
    assert("entity"@[1] == 'n');
}

/// The closed drift state of one conformed binding after the last conformance run.
#[derive(Clone, Copy, Debug, PartialEq, Eq, Structural)]
pub enum DriftState {
    /// `conformant`
    Conformant,
    /// `stale`
    Stale,
    /// `unknown`
    Unknown,
}

impl DriftState {
    /// The wire spelling of each member.
    pub open spec fn spec_text(self) -> Seq<char> {
        match self {
            DriftState::Conformant => "conformant"@,
            DriftState::Stale => "stale"@,
            DriftState::Unknown => "unknown"@,
        }
    }

    /// The wire spelling.
    pub fn key(self) -> (r: &'static str)
        ensures
            r@ == self.spec_text(),
    {
        match self {
            DriftState::Conformant => "conformant",
            DriftState::Stale => "stale",
            DriftState::Unknown => "unknown",
        }
    }

    /// The member spelled `t`, if any.
    pub open spec fn spec_parse(t: Seq<char>) -> Option<DriftState> {
        if t == "conformant"@ {
            Some(DriftState::Conformant)
        } else if t == "stale"@ {
            Some(DriftState::Stale)
        } else if t == "unknown"@ {
            Some(DriftState::Unknown)
        } else {
            None
        }
    }

    /// Parse the wire spelling.
    pub fn parse(text: &str) -> (r: Option<DriftState>)
        ensures
            r == DriftState::spec_parse(text@),
    {
        if str_eq(text, "conformant") {
            Some(DriftState::Conformant)
        } else if str_eq(text, "stale") {
            Some(DriftState::Stale)
        } else if str_eq(text, "unknown") {
            Some(DriftState::Unknown)
        } else {
            None
        }
    }
}

/// Every `DriftState` spelling parses back to its member, and nothing
/// else parses to that member.
pub proof fn lemma_drift_state_round_trip(x: DriftState, t: Seq<char>)
    ensures
        DriftState::spec_parse(x.spec_text()) == Some(x),
        DriftState::spec_parse(t) == Some(x) ==> t == x.spec_text(),
{
    reveal_strlit("conformant");
    reveal_strlit("stale");
    reveal_strlit("unknown");
    assert("conformant"@.len() == 10);
    assert("stale"@.len() == 5);
    assert("unknown"@.len() == 7);
}

/// The closed support-artifact kind.
#[derive(Clone, Copy, Debug, PartialEq, Eq, Structural)]
pub enum SupportKind {
    /// `openapi`
    Openapi,
    /// `types`
    Types,
    /// `test-skeleton`
    TestSkeleton,
    /// `binding-manifest`
    BindingManifest,
    /// `conformance-metadata`
    ConformanceMetadata,
    /// `migration-hint`
    MigrationHint,
}

impl SupportKind {
    /// The wire spelling of each member.
    pub open spec fn spec_text(self) -> Seq<char> {
        match self {
            SupportKind::Openapi => "openapi"@,
            SupportKind::Types => "types"@,
            SupportKind::TestSkeleton => "test-skeleton"@,
            SupportKind::BindingManifest => "binding-manifest"@,
            SupportKind::ConformanceMetadata => "conformance-metadata"@,
            SupportKind::MigrationHint => "migration-hint"@,
        }
    }

    /// The wire spelling.
    pub fn key(self) -> (r: &'static str)
        ensures
            r@ == self.spec_text(),
    {
        match self {
            SupportKind::Openapi => "openapi",
            SupportKind::Types => "types",
            SupportKind::TestSkeleton => "test-skeleton",
            SupportKind::BindingManifest => "binding-manifest",
            SupportKind::ConformanceMetadata => "conformance-metadata",
            SupportKind::MigrationHint => "migration-hint",
        }
    }

    /// The member spelled `t`, if any.
    pub open spec fn spec_parse(t: Seq<char>) -> Option<SupportKind> {
        if t == "openapi"@ {
            Some(SupportKind::Openapi)
        } else if t == "types"@ {
            Some(SupportKind::Types)
        } else if t == "test-skeleton"@ {
            Some(SupportKind::TestSkeleton)
        } else if t == "binding-manifest"@ {
            Some(SupportKind::BindingManifest)
        } else if t == "conformance-metadata"@ {
            Some(SupportKind::ConformanceMetadata)
        } else if t == "migration-hint"@ {
            Some(SupportKind::MigrationHint)
        } else {
            None
        }
    }

    /// Parse the wire spelling.
    pub fn parse(text: &str) -> (r: Option<SupportKind>)
        ensures
            r == SupportKind::spec_parse(text@),
    {
        if str_eq(text, "openapi") {
            Some(SupportKind::Openapi)
        } else if str_eq(text, "types") {
            Some(SupportKind::Types)
        } else if str_eq(text, "test-skeleton") {
            Some(SupportKind::TestSkeleton)
        } else if str_eq(text, "binding-manifest") {
            Some(SupportKind::BindingManifest)
        } else if str_eq(text, "conformance-metadata") {
            Some(SupportKind::ConformanceMetadata)
        } else if str_eq(text, "migration-hint") {
            Some(SupportKind::MigrationHint)
        } else {
            None
        }
    }
}

/// Every `SupportKind` spelling parses back to its member, and nothing
/// else parses to that member.
pub proof fn lemma_support_kind_round_trip(x: SupportKind, t: Seq<char>)
    ensures
        SupportKind::spec_parse(x.spec_text()) == Some(x),
        SupportKind::spec_parse(t) == Some(x) ==> t == x.spec_text(),
{
    reveal_strlit("openapi");
    reveal_strlit("types");
    reveal_strlit("test-skeleton");
    reveal_strlit("binding-manifest");
    reveal_strlit("conformance-metadata");
    reveal_strlit("migration-hint");
    assert("openapi"@.len() == 7);
    assert("types"@.len() == 5);
    assert("test-skeleton"@.len() == 13);
    assert("binding-manifest"@.len() == 16);
    assert("conformance-metadata"@.len() == 20);
    assert("migration-hint"@.len() == 14);
}

/// The closed lifecycle of a support artifact.
#[derive(Clone, Copy, Debug, PartialEq, Eq, Structural)]
pub enum SupportLifecycle {
    /// `generated`
    Generated,
    /// `scaffolded`
    Scaffolded,
    /// `checked`
    Checked,
}

impl SupportLifecycle {
    /// The wire spelling of each member.
    pub open spec fn spec_text(self) -> Seq<char> {
        match self {
            SupportLifecycle::Generated => "generated"@,
            SupportLifecycle::Scaffolded => "scaffolded"@,
            SupportLifecycle::Checked => "checked"@,
        }
    }

    /// The wire spelling.
    pub fn key(self) -> (r: &'static str)
        ensures
            r@ == self.spec_text(),
    {
        match self {
            SupportLifecycle::Generated => "generated",
            SupportLifecycle::Scaffolded => "scaffolded",
            SupportLifecycle::Checked => "checked",
        }
    }

    /// The member spelled `t`, if any.
    pub open spec fn spec_parse(t: Seq<char>) -> Option<SupportLifecycle> {
        if t == "generated"@ {
            Some(SupportLifecycle::Generated)
        } else if t == "scaffolded"@ {
            Some(SupportLifecycle::Scaffolded)
        } else if t == "checked"@ {
            Some(SupportLifecycle::Checked)
        } else {
            None
        }
    }

    /// Parse the wire spelling.
    pub fn parse(text: &str) -> (r: Option<SupportLifecycle>)
        ensures
            r == SupportLifecycle::spec_parse(text@),
    {
        if str_eq(text, "generated") {
            Some(SupportLifecycle::Generated)
        } else if str_eq(text, "scaffolded") {
            Some(SupportLifecycle::Scaffolded)
        } else if str_eq(text, "checked") {
            Some(SupportLifecycle::Checked)
        } else {
            None
        }
    }
}

/// Every `SupportLifecycle` spelling parses back to its member, and nothing
/// else parses to that member.
pub proof fn lemma_support_lifecycle_round_trip(x: SupportLifecycle, t: Seq<char>)
    ensures
        SupportLifecycle::spec_parse(x.spec_text()) == Some(x),
        SupportLifecycle::spec_parse(t) == Some(x) ==> t == x.spec_text(),
{
    reveal_strlit("generated");
    reveal_strlit("scaffolded");
    reveal_strlit("checked");
    assert("generated"@.len() == 9);
    assert("scaffolded"@.len() == 10);
    assert("checked"@.len() == 7);
}

/// The closed history event of one binding.
#[derive(Clone, Copy, Debug, PartialEq, Eq, Structural)]
pub enum HistoryEvent {
    /// `recorded`
    Recorded,
    /// `verified`
    Verified,
    /// `staled`
    Staled,
    /// `attached`
    Attached,
}

impl HistoryEvent {
    /// The wire spelling of each member.
    pub open spec fn spec_text(self) -> Seq<char> {
        match self {
            HistoryEvent::Recorded => "recorded"@,
            HistoryEvent::Verified => "verified"@,
            HistoryEvent::Staled => "staled"@,
            HistoryEvent::Attached => "attached"@,
        }
    }

    /// The wire spelling.
    pub fn key(self) -> (r: &'static str)
        ensures
            r@ == self.spec_text(),
    {
        match self {
            HistoryEvent::Recorded => "recorded",
            HistoryEvent::Verified => "verified",
            HistoryEvent::Staled => "staled",
            HistoryEvent::Attached => "attached",
        }
    }

    /// The member spelled `t`, if any.
    pub open spec fn spec_parse(t: Seq<char>) -> Option<HistoryEvent> {
        if t == "recorded"@ {
            Some(HistoryEvent::Recorded)
        } else if t == "verified"@ {
            Some(HistoryEvent::Verified)
        } else if t == "staled"@ {
            Some(HistoryEvent::Staled)
        } else if t == "attached"@ {
            Some(HistoryEvent::Attached)
        } else {
            None
        }
    }

    /// Parse the wire spelling.
    pub fn parse(text: &str) -> (r: Option<HistoryEvent>)
        ensures
            r == HistoryEvent::spec_parse(text@),
    {
        if str_eq(text, "recorded") {
            Some(HistoryEvent::Recorded)
        } else if str_eq(text, "verified") {
            Some(HistoryEvent::Verified)
        } else if str_eq(text, "staled") {
            Some(HistoryEvent::Staled)
        } else if str_eq(text, "attached") {
            Some(HistoryEvent::Attached)
        } else {
            None
        }
    }
}

/// Every `HistoryEvent` spelling parses back to its member, and nothing
/// else parses to that member.
pub proof fn lemma_history_event_round_trip(x: HistoryEvent, t: Seq<char>)
    ensures
        HistoryEvent::spec_parse(x.spec_text()) == Some(x),
        HistoryEvent::spec_parse(t) == Some(x) ==> t == x.spec_text(),
{
    reveal_strlit("recorded");
    reveal_strlit("verified");
    reveal_strlit("staled");
    reveal_strlit("attached");
    assert("recorded"@.len() == 8);
    assert("verified"@.len() == 8);
    assert("staled"@.len() == 6);
    assert("attached"@.len() == 8);
    assert("recorded"@[0] == 'r');
    assert("verified"@[0] == 'v');
    assert("attached"@[0] == 'a');
}

/// The adapter that produced or verified a record.
#[derive(Clone, Debug, PartialEq, Eq)]
pub struct AdapterIdentity {
    pub id: String,
    pub version: String,
    pub digest: Option<String>,
}

/// One maintained source location: a logical project-relative path and
/// an optional 1-based line.
#[derive(Clone, Debug, PartialEq, Eq)]
pub struct SourceLocation {
    pub path: String,
    pub line: Option<u64>,
}

/// One typed effect declaration the maintained code claims.
#[derive(Clone, Debug, PartialEq, Eq)]
pub struct DeclaredEffect {
    /// The closed effect-kind key.
    pub kind: String,
    /// The canonical subject: a semantic id or `entity.field`.
    pub subject: String,
}

/// The typed signature claim of one maintained operation.
#[derive(Clone, Debug, PartialEq, Eq)]
pub struct SignatureEvidence {
    /// The input fields, in declaration order, with requiredness.
    pub inputs: Vec<SignatureField>,
    /// The output type expression, when the symbol returns.
    pub output: Option<String>,
    /// The reads references, sorted and unique.
    pub reads: Vec<String>,
}

/// One input field of a signature claim.
#[derive(Clone, Debug, PartialEq, Eq)]
pub struct SignatureField {
    pub name: String,
    pub ty: String,
    pub required: bool,
}

/// The ownership manifest entry of one generated support artifact.
#[derive(Clone, Debug, PartialEq, Eq)]
pub struct SupportArtifact {
    /// The canonical semantic owner of the artifact.
    pub symbol: String,
    pub kind: SupportKind,
    /// The exact logical path inside the generated home.
    pub path: String,
    pub lifecycle: SupportLifecycle,
    /// The SHA-256 of the artifact's exact bytes, when fingerprinted.
    pub digest: Option<String>,
}

/// The provenance of one conformed binding.
#[derive(Clone, Debug, PartialEq, Eq)]
pub struct Provenance {
    pub adapter: String,
    pub revision: String,
}

/// One binding history entry: what happened, against which revision.
#[derive(Clone, Debug, PartialEq, Eq)]
pub struct HistoryEntry {
    pub event: HistoryEvent,
    pub revision: String,
}

/// One conformed symbol: the maintained implementation bound to its
/// canonical contract, signature claim, declared effects, and native
/// tests.
#[derive(Clone, Debug, PartialEq, Eq)]
pub struct ConformedSymbol {
    pub id: String,
    pub kind: SymbolKind,
    pub source: SourceLocation,
    pub fingerprint: Option<String>,
    pub state: DriftState,
    pub signature: Option<SignatureEvidence>,
    pub effects: Vec<DeclaredEffect>,
    pub native_tests: Vec<String>,
    pub gates: Vec<String>,
    pub provenance: Provenance,
    pub history: Vec<HistoryEntry>,
}

/// The persisted conformed-binding registry.
#[derive(Clone, Debug, PartialEq, Eq)]
pub struct ConformedRegistry {
    pub schema_version: String,
    pub identity: String,
    pub project: String,
    pub mode: String,
    pub adapter: AdapterIdentity,
    pub revision: String,
    pub symbols: Vec<ConformedSymbol>,
    pub artifacts: Vec<SupportArtifact>,
}

/// The module segment of a semantic id: the text before its first dot,
/// when non-empty.
pub open spec fn module_segment(id: Seq<char>) -> Option<Seq<char>> {
    if first_index(id, '.') > 0 {
        Some(id.take(first_index(id, '.')))
    } else {
        None
    }
}

impl ConformedRegistry {
    /// An empty registry for one project captured by one adapter.
    pub fn empty(project: &str, adapter: AdapterIdentity, revision: &str) -> (r: ConformedRegistry)
        ensures
            r.schema_version@ == SCHEMA_VERSION@,
            r.identity@ == IDENTITY@,
            r.project@ == project@,
            r.mode@ == MODE@,
            r.adapter == adapter,
            r.revision@ == revision@,
            r.symbols@.len() == 0,
            r.artifacts@.len() == 0,
    {
        ConformedRegistry {
            schema_version: SCHEMA_VERSION.to_owned(),
            identity: IDENTITY.to_owned(),
            project: project.to_owned(),
            mode: MODE.to_owned(),
            adapter,
            revision: revision.to_owned(),
            symbols: Vec::new(),
            artifacts: Vec::new(),
        }
    }

    /// The first record of one symbol id, if present.
    pub fn symbol(&self, id: &str) -> (r: Option<&ConformedSymbol>)
        ensures
            match r {
                Some(x) => exists|i: int| 0 <= i < self.symbols@.len() && self.symbols@[i] == *x
                    && x.id@ == id@
                    && forall|j: int| 0 <= j < i ==> (#[trigger] self.symbols@[j]).id@ != id@,
                None => forall|i: int| 0 <= i < self.symbols@.len() ==> (#[trigger] self.symbols@[i]).id@ != id@,
            },
    {
        let mut i: usize = 0;
        while i < self.symbols.len()
            invariant
                i <= self.symbols@.len(),
                forall|j: int| 0 <= j < i ==> (#[trigger] self.symbols@[j]).id@ != id@,
            decreases self.symbols@.len() - i,
        {
            if str_eq(self.symbols[i].id.as_str(), id) {
                return Some(&self.symbols[i]);
            }
            i = i + 1;
        }
        None
    }

    /// The module segment of a semantic id (its first dot-separated
    /// segment), when non-empty.
    pub fn module_of(id: &str) -> (r: Option<&str>)
        ensures
            match r {
                Some(m) => module_segment(id@) == Some(m@),
                None => module_segment(id@) is None,
            },
    {
        let chars = chars_of(id);
        let k = find_char(&chars, '.');
        proof { crate::text::lemma_first_index(id@, '.'); }
        if k == 0 {
            return None;
        }
        let m = id.substring_char(0, k);
        assert(m@ =~= id@.take(k as int));
        Some(m)
    }
}

/// One adapter-declared conformed symbol to record.
#[derive(Clone, Debug, PartialEq, Eq)]
pub struct DeclaredSymbol {
    pub id: String,
    pub kind: SymbolKind,
    pub source: SourceLocation,
    pub fingerprint: Option<String>,
    pub signature: Option<SignatureEvidence>,
    pub effects: Vec<DeclaredEffect>,
}

/// The validated adapter declaration document.
#[derive(Clone, Debug, PartialEq, Eq)]
pub struct DeclarationDocument {
    pub adapter: AdapterIdentity,
    pub project: String,
    pub revision: String,
    pub symbols: Vec<DeclaredSymbol>,
    pub artifacts: Vec<SupportArtifact>,
}

} // verus!
