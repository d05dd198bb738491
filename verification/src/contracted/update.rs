//! Merging one adapter declaration into the conformed-binding registry.
//! Every declared symbol must exist canonically with the same kind and
//! module, and its claims must fit the closed kind rules; artifacts must
//! name declared definitions. New symbols are recorded with a `recorded`
//! history entry; known symbols are refreshed silently; artifacts upsert
//! by path. Both lists end in canonical order.

use vstd::prelude::*;
use crate::json::JsonValue;
use crate::text::{str_eq, str_lt, text_le, lemma_text_le_order};
use crate::sorting::{Ordered, sort, sorted};
use crate::diagnostics::set::DiagnosticSet;
use crate::diagnostics::item::DiagnosticView;
use super::types::{AdapterIdentity, ConformedRegistry, ConformedSymbol, DeclarationDocument, DeclaredEffect,
    DeclaredSymbol, DriftState, HistoryEntry, HistoryEvent, Provenance, SignatureEvidence, SignatureField,
    SourceLocation, SupportArtifact, SupportKind, SupportLifecycle, SymbolKind, module_segment};
use super::version::{IDENTITY, MAX_SUPPORT_ARTIFACTS, MAX_SYMBOLS, MODE, SCHEMA_VERSION};
use super::diagnostic::{declaration_invalid_set, token_set, unknown_module_set, unknown_symbol_set};
use super::wire::{RefusalView, document_matches, declaration_outcome, parse_declaration_bytes, refusal_diagnostics,
    refusal_set, Refusal};

verus! {

// ---------------------------------------------------------------------
// Contents

/// The texts of a list of strings.
pub open spec fn texts(s: Seq<String>) -> Seq<Seq<char>> {
    s.map_values(|t: String| t@)
}

/// The text of an optional string.
pub open spec fn opt_text(s: Option<String>) -> Option<Seq<char>> {
    match s {
        Some(t) => Some(t@),
        None => None,
    }
}

/// The content of a signature claim.
pub struct SignatureContent {
    pub inputs: Seq<(Seq<char>, Seq<char>, bool)>,
    pub output: Option<Seq<char>>,
    pub reads: Seq<Seq<char>>,
}

/// The content of an optional signature claim.
pub open spec fn signature_content(s: Option<SignatureEvidence>) -> Option<SignatureContent> {
    match s {
        Some(e) => Some(SignatureContent {
            inputs: e.inputs@.map_values(|f: SignatureField| (f.name@, f.ty@, f.required)),
            output: opt_text(e.output),
            reads: texts(e.reads@),
        }),
        None => None,
    }
}

/// The `(kind, subject)` contents of effects.
pub open spec fn effect_contents(s: Seq<DeclaredEffect>) -> Seq<(Seq<char>, Seq<char>)> {
    s.map_values(|e: DeclaredEffect| (e.kind@, e.subject@))
}

/// The content of one conformed record.
pub struct RecordView {
    pub id: Seq<char>,
    pub kind: SymbolKind,
    pub path: Seq<char>,
    pub line: Option<u64>,
    pub fingerprint: Option<Seq<char>>,
    pub state: DriftState,
    pub signature: Option<SignatureContent>,
    pub effects: Seq<(Seq<char>, Seq<char>)>,
    pub native_tests: Seq<Seq<char>>,
    pub gates: Seq<Seq<char>>,
    pub provenance: (Seq<char>, Seq<char>),
    pub history: Seq<(HistoryEvent, Seq<char>)>,
}

/// The content of a record.
pub open spec fn record_view(r: ConformedSymbol) -> RecordView {
    RecordView {
        id: r.id@,
        kind: r.kind,
        path: r.source.path@,
        line: r.source.line,
        fingerprint: opt_text(r.fingerprint),
        state: r.state,
        signature: signature_content(r.signature),
        effects: effect_contents(r.effects@),
        native_tests: texts(r.native_tests@),
        gates: texts(r.gates@),
        provenance: (r.provenance.adapter@, r.provenance.revision@),
        history: r.history@.map_values(|h: HistoryEntry| (h.event, h.revision@)),
    }
}

/// The contents of records.
pub open spec fn record_views(s: Seq<ConformedSymbol>) -> Seq<RecordView> {
    s.map_values(|r: ConformedSymbol| record_view(r))
}

/// The record of a symbol declared for the first time: conformant, no
/// attachments, one `recorded` history entry.
pub open spec fn fresh_view(d: DeclaredSymbol, adapter: Seq<char>, revision: Seq<char>) -> RecordView {
    RecordView {
        id: d.id@,
        kind: d.kind,
        path: d.source.path@,
        line: d.source.line,
        fingerprint: opt_text(d.fingerprint),
        state: DriftState::Conformant,
        signature: signature_content(d.signature),
        effects: effect_contents(d.effects@),
        native_tests: Seq::empty(),
        gates: Seq::empty(),
        provenance: (adapter, revision),
        history: seq![(HistoryEvent::Recorded, revision)],
    }
}

/// A known record refreshed by a declaration: the claims and provenance
/// are replaced, the state, attachments and history kept.
pub open spec fn refreshed_view(old: RecordView, d: DeclaredSymbol, adapter: Seq<char>, revision: Seq<char>) -> RecordView {
    RecordView {
        id: old.id,
        kind: d.kind,
        path: d.source.path@,
        line: d.source.line,
        fingerprint: opt_text(d.fingerprint),
        state: old.state,
        signature: signature_content(d.signature),
        effects: effect_contents(d.effects@),
        native_tests: old.native_tests,
        gates: old.gates,
        provenance: (adapter, revision),
        history: old.history,
    }
}

/// The first record with the id, or the length when none has it.
pub open spec fn index_of_id(s: Seq<RecordView>, id: Seq<char>) -> int
    decreases s.len(),
{
    if s.len() == 0 {
        0
    } else if s[0].id == id {
        0
    } else {
        1 + index_of_id(s.drop_first(), id)
    }
}

/// One declaration applied to the records.
pub open spec fn apply_symbol(s: Seq<RecordView>, d: DeclaredSymbol, adapter: Seq<char>, revision: Seq<char>) -> Seq<RecordView> {
    let k = index_of_id(s, d.id@);
    if k < s.len() {
        s.update(k, refreshed_view(s[k], d, adapter, revision))
    } else {
        s.push(fresh_view(d, adapter, revision))
    }
}

/// The records after applying every declaration in order.
pub open spec fn merged_symbols(s: Seq<RecordView>, ds: Seq<DeclaredSymbol>, adapter: Seq<char>, revision: Seq<char>)
    -> Seq<RecordView>
    decreases ds.len(),
{
    if ds.len() == 0 {
        s
    } else {
        apply_symbol(merged_symbols(s, ds.drop_last(), adapter, revision), ds.last(), adapter, revision)
    }
}

/// The ids recorded for the first time, in declaration order.
pub open spec fn recorded_ids(s: Seq<RecordView>, ds: Seq<DeclaredSymbol>, adapter: Seq<char>, revision: Seq<char>)
    -> Seq<Seq<char>>
    decreases ds.len(),
{
    if ds.len() == 0 {
        Seq::empty()
    } else {
        let before = merged_symbols(s, ds.drop_last(), adapter, revision);
        let prior = recorded_ids(s, ds.drop_last(), adapter, revision);
        if index_of_id(before, ds.last().id@) < before.len() { prior } else { prior.push(ds.last().id@) }
    }
}

/// The record count found when a new record first exceeds the bound.
pub open spec fn symbol_overflow(s: Seq<RecordView>, ds: Seq<DeclaredSymbol>, adapter: Seq<char>, revision: Seq<char>)
    -> Option<nat>
    decreases ds.len(),
{
    if ds.len() == 0 {
        None
    } else {
        match symbol_overflow(s, ds.drop_last(), adapter, revision) {
            Some(n) => Some(n),
            None => {
                let before = merged_symbols(s, ds.drop_last(), adapter, revision);
                if index_of_id(before, ds.last().id@) == before.len() && before.len() + 1 > MAX_SYMBOLS {
                    Some((before.len() + 1) as nat)
                } else {
                    None
                }
            },
        }
    }
}

pub proof fn lemma_index_of_id(s: Seq<RecordView>, id: Seq<char>)
    ensures
        0 <= index_of_id(s, id) <= s.len(),
        forall|j: int| 0 <= j < index_of_id(s, id) ==> s[j].id != id,
        index_of_id(s, id) < s.len() ==> s[index_of_id(s, id)].id == id,
    decreases s.len(),
{
    if s.len() > 0 && s[0].id != id {
        lemma_index_of_id(s.drop_first(), id);
        assert forall|j: int| 0 <= j < index_of_id(s, id) implies s[j].id != id by {
            if j > 0 {
                assert(s[j] == s.drop_first()[j - 1]);
            }
        }
    }
}


/// The position of the first record with the id (the length when none).
fn find_record(records: &Vec<ConformedSymbol>, id: &str) -> (r: usize)
    ensures
        r == index_of_id(record_views(records@), id@),
{
    let ghost vs = record_views(records@);
    let mut i: usize = 0;
    while i < records.len()
        invariant
            vs == record_views(records@),
            vs.len() == records@.len(),
            i <= records@.len(),
            forall|j: int| 0 <= j < i ==> vs[j].id != id@,
        decreases records@.len() - i,
    {
        if str_eq(records[i].id.as_str(), id) {
            proof {
                assert(vs[i as int].id == id@);
                lemma_index_of_id(vs, id@);
            }
            return i;
        }
        assert(vs[i as int].id == records@[i as int].id@);
        i = i + 1;
    }
    proof { lemma_index_of_id(vs, id@); }
    i
}

proof fn lemma_take_step<T>(s: Seq<T>, k: int)
    requires
        0 <= k < s.len(),
    ensures
        s.take(k + 1).drop_last() == s.take(k),
        s.take(k + 1).last() == s[k],
{
    assert(s.take(k + 1).drop_last() =~= s.take(k));
}

/// Apply every declared symbol to the records in order: a known id is
/// refreshed in place, a new id appended as a fresh record; the count
/// found is returned when a new record first exceeds the bound.
fn merge_symbols(records: Vec<ConformedSymbol>, declared: Vec<DeclaredSymbol>, adapter: &str, revision: &str)
    -> (r: Result<(Vec<ConformedSymbol>, Vec<String>), usize>)
    ensures
        match symbol_overflow(record_views(records@), declared@, adapter@, revision@) {
            Some(n) => r matches Err(m) && m == n,
            None => r matches Ok((out, rec)) && record_views(out@) == merged_symbols(record_views(records@), declared@,
                adapter@, revision@) && texts(rec@) == recorded_ids(record_views(records@), declared@, adapter@, revision@),
        },
{
    let ghost base = record_views(records@);
    let ghost ds = declared@;
    let mut out = records;
    let mut pending = declared;
    let mut rec: Vec<String> = Vec::new();
    let ghost mut k: int = 0;
    assert(ds.take(0) =~= Seq::<DeclaredSymbol>::empty());
    assert(ds.skip(0) =~= ds);
    assert(texts(rec@) =~= Seq::<Seq<char>>::empty());
    while pending.len() > 0
        invariant
            base == record_views(records@),
            ds == declared@,
            0 <= k <= ds.len(),
            pending@ == ds.skip(k),
            record_views(out@) == merged_symbols(base, ds.take(k), adapter@, revision@),
            texts(rec@) == recorded_ids(base, ds.take(k), adapter@, revision@),
            symbol_overflow(base, ds.take(k), adapter@, revision@) is None,
        decreases pending@.len(),
    {
        let d = pending.remove(0);
        proof {
            assert(d == ds[k]);
            lemma_take_step(ds, k);
            assert(pending@ =~= ds.skip(k + 1));
        }
        let ghost before = record_views(out@);
        let ghost rec_before = rec@;
        let idx = find_record(&out, d.id.as_str());
        proof { lemma_index_of_id(before, ds[k].id@); }
        let DeclaredSymbol { id, kind, source, fingerprint, signature, effects } = d;
        if idx < out.len() {
            let old = out.remove(idx);
            let record = ConformedSymbol {
                id: old.id,
                kind,
                source,
                fingerprint,
                state: old.state,
                signature,
                effects,
                native_tests: old.native_tests,
                gates: old.gates,
                provenance: Provenance { adapter: adapter.to_owned(), revision: revision.to_owned() },
                history: old.history,
            };
            let ghost removed = out@;
            out.insert(idx, record);
            proof {
                assert(record_views(out@) =~= before.update(idx as int, refreshed_view(before[idx as int], ds[k], adapter@, revision@))) by {
                    assert forall|j: int| 0 <= j < out@.len() implies record_views(out@)[j]
                        == before.update(idx as int, refreshed_view(before[idx as int], ds[k], adapter@, revision@))[j] by {
                        if j < idx {
                            assert(out@[j] == removed[j]);
                        } else if j > idx {
                            assert(out@[j] == removed[j - 1]);
                        }
                    }
                }
                assert(texts(rec@) == recorded_ids(base, ds.take(k + 1), adapter@, revision@));
            }
        } else {
            let tag = id.clone();
            rec.push(tag);
            let mut history: Vec<HistoryEntry> = Vec::new();
            history.push(HistoryEntry { event: HistoryEvent::Recorded, revision: revision.to_owned() });
            let record = ConformedSymbol {
                id,
                kind,
                source,
                fingerprint,
                state: DriftState::Conformant,
                signature,
                effects,
                native_tests: Vec::new(),
                gates: Vec::new(),
                provenance: Provenance { adapter: adapter.to_owned(), revision: revision.to_owned() },
                history,
            };
            out.push(record);
            proof {
                assert(record_views(out@) =~= before.push(fresh_view(ds[k], adapter@, revision@))) by {
                    assert(record_view(out@.last()).native_tests =~= Seq::<Seq<char>>::empty());
                    assert(record_view(out@.last()).gates =~= Seq::<Seq<char>>::empty());
                    assert(record_view(out@.last()).history =~= seq![(HistoryEvent::Recorded, revision@)]);
                    assert forall|j: int| 0 <= j < before.len() implies record_views(out@)[j] == before[j] by {
                        assert(out@[j] == out@.drop_last()[j]);
                    }
                }
                assert(texts(rec@) =~= rec_before.map_values(|t: String| t@).push(ds[k].id@));
            }
            if out.len() > MAX_SYMBOLS {
                proof {
                    assert(index_of_id(before, ds[k].id@) == before.len());
                    assert(out@.len() == before.len() + 1);
                    assert(symbol_overflow(base, ds.take(k + 1), adapter@, revision@) == Some((before.len() + 1) as nat));
                    lemma_overflow_prefix(base, ds, adapter@, revision@, k + 1);
                    assert(base == record_views(records@));
                    assert(ds == declared@);
                    assert(symbol_overflow(base, ds, adapter@, revision@) == Some(out@.len() as nat));
                }
                let n = out.len();
                return Err(n);
            }
        }
        proof { k = k + 1; }
    }
    proof {
        assert(ds.take(k) =~= ds);
    }
    Ok((out, rec))
}

proof fn lemma_overflow_prefix(s: Seq<RecordView>, ds: Seq<DeclaredSymbol>, adapter: Seq<char>, revision: Seq<char>, k: int)
    requires
        0 <= k <= ds.len(),
        symbol_overflow(s, ds.take(k), adapter, revision) is Some,
    ensures
        symbol_overflow(s, ds, adapter, revision) == symbol_overflow(s, ds.take(k), adapter, revision),
    decreases ds.len() - k,
{
    if k == ds.len() {
        assert(ds.take(k) =~= ds);
    } else {
        lemma_take_step(ds, k);
        lemma_overflow_prefix(s, ds, adapter, revision, k + 1);
    }
}


// ---------------------------------------------------------------------
// Artifacts

/// The content of one support artifact.
pub struct ArtifactContent {
    pub symbol: Seq<char>,
    pub kind: SupportKind,
    pub path: Seq<char>,
    pub lifecycle: SupportLifecycle,
    pub digest: Option<Seq<char>>,
}

/// The content of an artifact.
pub open spec fn artifact_content(a: SupportArtifact) -> ArtifactContent {
    ArtifactContent { symbol: a.symbol@, kind: a.kind, path: a.path@, lifecycle: a.lifecycle, digest: opt_text(a.digest) }
}

/// The contents of artifacts.
pub open spec fn artifact_contents(s: Seq<SupportArtifact>) -> Seq<ArtifactContent> {
    s.map_values(|a: SupportArtifact| artifact_content(a))
}

/// The first artifact with the path, or the length when none has it.
pub open spec fn index_of_path(s: Seq<ArtifactContent>, path: Seq<char>) -> int
    decreases s.len(),
{
    if s.len() == 0 {
        0
    } else if s[0].path == path {
        0
    } else {
        1 + index_of_path(s.drop_first(), path)
    }
}

pub proof fn lemma_index_of_path(s: Seq<ArtifactContent>, path: Seq<char>)
    ensures
        0 <= index_of_path(s, path) <= s.len(),
        forall|j: int| 0 <= j < index_of_path(s, path) ==> s[j].path != path,
        index_of_path(s, path) < s.len() ==> s[index_of_path(s, path)].path == path,
    decreases s.len(),
{
    if s.len() > 0 && s[0].path != path {
        lemma_index_of_path(s.drop_first(), path);
        assert forall|j: int| 0 <= j < index_of_path(s, path) implies s[j].path != path by {
            if j > 0 {
                assert(s[j] == s.drop_first()[j - 1]);
            }
        }
    }
}

/// One declared artifact upserted by path.
pub open spec fn upsert(s: Seq<ArtifactContent>, a: ArtifactContent) -> Seq<ArtifactContent> {
    let k = index_of_path(s, a.path);
    if k < s.len() { s.update(k, a) } else { s.push(a) }
}

/// The artifacts after upserting every declared artifact in order.
pub open spec fn merged_artifacts(s: Seq<ArtifactContent>, ds: Seq<ArtifactContent>) -> Seq<ArtifactContent>
    decreases ds.len(),
{
    if ds.len() == 0 { s } else { upsert(merged_artifacts(s, ds.drop_last()), ds.last()) }
}

/// The artifact count found when an appended artifact first exceeds the
/// bound.
pub open spec fn artifact_overflow(s: Seq<ArtifactContent>, ds: Seq<ArtifactContent>) -> Option<nat>
    decreases ds.len(),
{
    if ds.len() == 0 {
        None
    } else {
        match artifact_overflow(s, ds.drop_last()) {
            Some(n) => Some(n),
            None => {
                let before = merged_artifacts(s, ds.drop_last());
                if index_of_path(before, ds.last().path) == before.len() && before.len() + 1 > MAX_SUPPORT_ARTIFACTS {
                    Some((before.len() + 1) as nat)
                } else {
                    None
                }
            },
        }
    }
}

proof fn lemma_artifact_overflow_prefix(s: Seq<ArtifactContent>, ds: Seq<ArtifactContent>, k: int)
    requires
        0 <= k <= ds.len(),
        artifact_overflow(s, ds.take(k)) is Some,
    ensures
        artifact_overflow(s, ds) == artifact_overflow(s, ds.take(k)),
    decreases ds.len() - k,
{
    if k == ds.len() {
        assert(ds.take(k) =~= ds);
    } else {
        lemma_take_step(ds, k);
        lemma_artifact_overflow_prefix(s, ds, k + 1);
    }
}

pub(crate) fn find_artifact(artifacts: &Vec<SupportArtifact>, path: &str) -> (r: usize)
    ensures
        r == index_of_path(artifact_contents(artifacts@), path@),
{
    let ghost vs = artifact_contents(artifacts@);
    let mut i: usize = 0;
    while i < artifacts.len()
        invariant
            vs == artifact_contents(artifacts@),
            vs.len() == artifacts@.len(),
            i <= artifacts@.len(),
            forall|j: int| 0 <= j < i ==> vs[j].path != path@,
        decreases artifacts@.len() - i,
    {
        if str_eq(artifacts[i].path.as_str(), path) {
            proof {
                assert(vs[i as int].path == path@);
                lemma_index_of_path(vs, path@);
            }
            return i;
        }
        assert(vs[i as int].path == artifacts@[i as int].path@);
        i = i + 1;
    }
    proof { lemma_index_of_path(vs, path@); }
    i
}

/// Upsert every declared artifact by path, in order; the count found is
/// returned when an appended artifact first exceeds the bound.
fn merge_artifacts(records: Vec<SupportArtifact>, declared: Vec<SupportArtifact>) -> (r: Result<Vec<SupportArtifact>, usize>)
    ensures
        match artifact_overflow(artifact_contents(records@), artifact_contents(declared@)) {
            Some(n) => r matches Err(m) && m == n,
            None => r matches Ok(out) && artifact_contents(out@)
                == merged_artifacts(artifact_contents(records@), artifact_contents(declared@)),
        },
{
    let ghost base = artifact_contents(records@);
    let ghost ds = artifact_contents(declared@);
    let mut out = records;
    let mut pending = declared;
    let ghost mut k: int = 0;
    assert(ds.take(0) =~= Seq::<ArtifactContent>::empty());
    assert(artifact_contents(pending@) =~= ds.skip(0));
    while pending.len() > 0
        invariant
            base == artifact_contents(records@),
            ds == artifact_contents(declared@),
            0 <= k <= ds.len(),
            artifact_contents(pending@) == ds.skip(k),
            artifact_contents(out@) == merged_artifacts(base, ds.take(k)),
            artifact_overflow(base, ds.take(k)) is None,
        decreases pending@.len(),
    {
        let ghost pending_before = pending@;
        let a = pending.remove(0);
        proof {
            assert(artifact_contents(pending_before).len() == pending_before.len());
            assert(k < ds.len());
            assert(ds.skip(k)[0] == ds[k]);
            assert(artifact_contents(pending_before)[0] == artifact_content(a));
            assert(artifact_content(a) == ds[k]);
            lemma_take_step(ds, k);
            assert(artifact_contents(pending@) =~= ds.skip(k + 1)) by {
                assert forall|j: int| 0 <= j < pending@.len() implies artifact_contents(pending@)[j] == ds.skip(k + 1)[j] by {
                    assert(pending@[j] == pending_before[j + 1]);
                    assert(artifact_contents(pending_before)[j + 1] == ds.skip(k)[j + 1]);
                }
            }
        }
        let ghost before = artifact_contents(out@);
        let idx = find_artifact(&out, a.path.as_str());
        proof { lemma_index_of_path(before, ds[k].path); }
        if idx < out.len() {
            let _ = out.remove(idx);
            let ghost removed = out@;
            out.insert(idx, a);
            proof {
                assert(artifact_contents(out@) =~= before.update(idx as int, ds[k])) by {
                    assert forall|j: int| 0 <= j < out@.len() implies artifact_contents(out@)[j]
                        == before.update(idx as int, ds[k])[j] by {
                        if j < idx {
                            assert(out@[j] == removed[j]);
                        } else if j > idx {
                            assert(out@[j] == removed[j - 1]);
                        }
                    }
                }
            }
        } else {
            out.push(a);
            proof {
                assert(artifact_contents(out@) =~= before.push(ds[k])) by {
                    assert forall|j: int| 0 <= j < before.len() implies artifact_contents(out@)[j] == before[j] by {
                        assert(out@[j] == out@.drop_last()[j]);
                    }
                }
            }
            if out.len() > MAX_SUPPORT_ARTIFACTS {
                proof {
                    assert(artifact_overflow(base, ds.take(k + 1)) == Some((before.len() + 1) as nat));
                    lemma_artifact_overflow_prefix(base, ds, k + 1);
                }
                let n = out.len();
                return Err(n);
            }
        }
        proof { k = k + 1; }
    }
    proof {
        assert(ds.take(k) =~= ds);
    }
    Ok(out)
}


// ---------------------------------------------------------------------
// Validation against the canonical project

/// What the canonical project declares: its id (empty when none), its
/// module ids, and each definition's id with its kind word.
#[derive(Clone, Debug, PartialEq, Eq)]
pub struct ProjectFacts {
    pub project: String,
    pub modules: Vec<String>,
    pub definitions: Vec<(String, String)>,
}

/// Why a declaration cannot merge.
pub enum Problem {
    UnknownModule(Seq<char>),
    UnknownSymbol(Seq<char>),
    Invalid(Seq<char>, Option<Seq<char>>),
}

/// The module text of an id (empty when it has none).
pub open spec fn module_text(id: Seq<char>) -> Seq<char> {
    match module_segment(id) {
        Some(m) => m,
        None => Seq::empty(),
    }
}

/// The kind word of the first definition with the id.
pub open spec fn definition_kind(defs: Seq<(String, String)>, id: Seq<char>) -> Option<Seq<char>>
    decreases defs.len(),
{
    if defs.len() == 0 {
        None
    } else if defs[0].0@ == id {
        Some(defs[0].1@)
    } else {
        definition_kind(defs.drop_first(), id)
    }
}

/// The kinds whose binding carries a typed signature claim.
pub open spec fn signature_required(k: SymbolKind) -> bool {
    k == SymbolKind::Command || k == SymbolKind::Query
}

/// The kinds whose binding may carry declared-effect claims.
pub open spec fn effects_allowed(k: SymbolKind) -> bool {
    k == SymbolKind::Command
}

/// The first problem of one declared symbol.
pub open spec fn symbol_problem(f: ProjectFacts, d: DeclaredSymbol) -> Option<Problem> {
    if !texts(f.modules@).contains(module_text(d.id@)) {
        Some(Problem::UnknownModule(module_text(d.id@)))
    } else if definition_kind(f.definitions@, d.id@) is None {
        Some(Problem::UnknownSymbol(d.id@))
    } else if definition_kind(f.definitions@, d.id@).unwrap() != d.kind.spec_text() {
        Some(Problem::Invalid("kind-mismatch"@, Some(d.id@)))
    } else if signature_required(d.kind) && d.signature is None {
        Some(Problem::Invalid("signature-required"@, Some(d.id@)))
    } else if !signature_required(d.kind) && d.signature is Some {
        Some(Problem::Invalid("signature-unsupported"@, Some(d.id@)))
    } else if !effects_allowed(d.kind) && d.effects@.len() > 0 {
        Some(Problem::Invalid("effects-unsupported"@, Some(d.id@)))
    } else {
        None
    }
}

/// The first problem among declared symbols, in order.
pub open spec fn symbols_problem(f: ProjectFacts, ds: Seq<DeclaredSymbol>) -> Option<Problem>
    decreases ds.len(),
{
    if ds.len() == 0 {
        None
    } else if symbol_problem(f, ds[0]) is Some {
        symbol_problem(f, ds[0])
    } else {
        symbols_problem(f, ds.drop_first())
    }
}

/// The first artifact naming no canonical definition, in order.
pub open spec fn artifacts_problem(f: ProjectFacts, arts: Seq<SupportArtifact>) -> Option<Problem>
    decreases arts.len(),
{
    if arts.len() == 0 {
        None
    } else if definition_kind(f.definitions@, arts[0].symbol@) is None {
        Some(Problem::UnknownSymbol(arts[0].symbol@))
    } else {
        artifacts_problem(f, arts.drop_first())
    }
}

/// The first problem of a declaration: a foreign project, then its
/// symbols, then its artifacts.
pub open spec fn declaration_problem(f: ProjectFacts, d: DeclarationDocument) -> Option<Problem> {
    if d.project@ != f.project@ {
        Some(Problem::Invalid("project-mismatch"@, None))
    } else if symbols_problem(f, d.symbols@) is Some {
        symbols_problem(f, d.symbols@)
    } else {
        artifacts_problem(f, d.artifacts@)
    }
}

/// The registered set of a problem.
pub open spec fn problem_set(e: Seq<DiagnosticView>, p: Problem) -> bool {
    match p {
        Problem::UnknownModule(m) => token_set(e, "contracted.unknown-module"@, None, "module"@, m),
        Problem::UnknownSymbol(id) => token_set(e, "contracted.unknown-symbol"@, None, "symbol"@, id),
        Problem::Invalid(detail, target) => refusal_set(e, RefusalView::Invalid(detail, target)),
    }
}

pub(crate) fn definition_kind_of<'a>(defs: &'a Vec<(String, String)>, id: &str) -> (r: Option<&'a str>)
    ensures
        match r {
            Some(k) => definition_kind(defs@, id@) == Some(k@),
            None => definition_kind(defs@, id@) is None,
        },
{
    let mut i: usize = 0;
    assert(defs@.subrange(0, defs@.len() as int) =~= defs@);
    while i < defs.len()
        invariant
            i <= defs@.len(),
            definition_kind(defs@, id@) == definition_kind(defs@.subrange(i as int, defs@.len() as int), id@),
        decreases defs@.len() - i,
    {
        assert(defs@.subrange(i as int, defs@.len() as int).drop_first() =~= defs@.subrange(i + 1, defs@.len() as int));
        assert(defs@.subrange(i as int, defs@.len() as int)[0] == defs@[i as int]);
        if str_eq(defs[i].0.as_str(), id) {
            return Some(defs[i].1.as_str());
        }
        i = i + 1;
    }
    None
}

fn module_listed(modules: &Vec<String>, m: &str) -> (r: bool)
    ensures
        r == texts(modules@).contains(m@),
{
    let mut i: usize = 0;
    while i < modules.len()
        invariant
            i <= modules@.len(),
            forall|j: int| 0 <= j < i ==> texts(modules@)[j] != m@,
        decreases modules@.len() - i,
    {
        if str_eq(modules[i].as_str(), m) {
            assert(texts(modules@)[i as int] == m@);
            return true;
        }
        i = i + 1;
    }
    false
}

fn problem_of_symbol(f: &ProjectFacts, d: &DeclaredSymbol) -> (r: Result<(), DiagnosticSet>)
    ensures
        match symbol_problem(*f, *d) {
            Some(p) => r matches Err(e) && problem_set(e@, p),
            None => r is Ok,
        },
{
    let module = match ConformedRegistry::module_of(d.id.as_str()) {
        Some(m) => m,
        None => "",
    };
    proof {
        reveal_strlit("");
        if module_segment(d.id@) is None {
            assert(module@ =~= Seq::<char>::empty());
        }
    }
    if !module_listed(&f.modules, module) {
        return Err(unknown_module_set(module));
    }
    let kind = match definition_kind_of(&f.definitions, d.id.as_str()) {
        Some(k) => k,
        None => return Err(unknown_symbol_set(d.id.as_str())),
    };
    if !str_eq(kind, d.kind.key()) {
        return Err(declaration_invalid_set("kind-mismatch", Some(d.id.as_str())));
    }
    let required = d.kind == SymbolKind::Command || d.kind == SymbolKind::Query;
    if required && d.signature.is_none() {
        return Err(declaration_invalid_set("signature-required", Some(d.id.as_str())));
    }
    if !required && d.signature.is_some() {
        return Err(declaration_invalid_set("signature-unsupported", Some(d.id.as_str())));
    }
    if d.kind != SymbolKind::Command && d.effects.len() > 0 {
        return Err(declaration_invalid_set("effects-unsupported", Some(d.id.as_str())));
    }
    Ok(())
}

fn problem_of_declaration(f: &ProjectFacts, d: &DeclarationDocument) -> (r: Result<(), DiagnosticSet>)
    ensures
        match declaration_problem(*f, *d) {
            Some(p) => r matches Err(e) && problem_set(e@, p),
            None => r is Ok,
        },
{
    if !str_eq(d.project.as_str(), f.project.as_str()) {
        return Err(declaration_invalid_set("project-mismatch", None));
    }
    let mut i: usize = 0;
    assert(d.symbols@.subrange(0, d.symbols@.len() as int) =~= d.symbols@);
    while i < d.symbols.len()
        invariant
            d.project@ == f.project@,
            i <= d.symbols@.len(),
            symbols_problem(*f, d.symbols@) == symbols_problem(*f, d.symbols@.subrange(i as int, d.symbols@.len() as int)),
        decreases d.symbols@.len() - i,
    {
        let ghost rest = d.symbols@.subrange(i as int, d.symbols@.len() as int);
        assert(rest.drop_first() =~= d.symbols@.subrange(i + 1, d.symbols@.len() as int));
        assert(rest[0] == d.symbols@[i as int]);
        problem_of_symbol(f, &d.symbols[i])?;
        i = i + 1;
    }
    assert(d.symbols@.subrange(i as int, d.symbols@.len() as int) =~= Seq::<DeclaredSymbol>::empty());
    let mut j: usize = 0;
    assert(d.artifacts@.subrange(0, d.artifacts@.len() as int) =~= d.artifacts@);
    while j < d.artifacts.len()
        invariant
            d.project@ == f.project@,
            symbols_problem(*f, d.symbols@) is None,
            j <= d.artifacts@.len(),
            artifacts_problem(*f, d.artifacts@)
                == artifacts_problem(*f, d.artifacts@.subrange(j as int, d.artifacts@.len() as int)),
        decreases d.artifacts@.len() - j,
    {
        let ghost rest = d.artifacts@.subrange(j as int, d.artifacts@.len() as int);
        assert(rest.drop_first() =~= d.artifacts@.subrange(j + 1, d.artifacts@.len() as int));
        assert(rest[0] == d.artifacts@[j as int]);
        if definition_kind_of(&f.definitions, d.artifacts[j].symbol.as_str()).is_none() {
            return Err(unknown_symbol_set(d.artifacts[j].symbol.as_str()));
        }
        j = j + 1;
    }
    assert(d.artifacts@.subrange(j as int, d.artifacts@.len() as int) =~= Seq::<SupportArtifact>::empty());
    Ok(())
}


// ---------------------------------------------------------------------
// The merge

impl Ordered for ConformedSymbol {
    open spec fn spec_le(&self, other: &Self) -> bool {
        text_le(self.id@, other.id@)
    }

    proof fn lemma_total(a: &Self, b: &Self) {
        lemma_text_le_order(a.id@, b.id@, a.id@);
    }

    proof fn lemma_transitive(a: &Self, b: &Self, c: &Self) {
        lemma_text_le_order(a.id@, b.id@, c.id@);
    }

    fn le(&self, other: &Self) -> (r: bool) {
        !str_lt(other.id.as_str(), self.id.as_str())
    }
}

impl Ordered for SupportArtifact {
    open spec fn spec_le(&self, other: &Self) -> bool {
        text_le(self.path@, other.path@)
    }

    proof fn lemma_total(a: &Self, b: &Self) {
        lemma_text_le_order(a.path@, b.path@, a.path@);
    }

    proof fn lemma_transitive(a: &Self, b: &Self, c: &Self) {
        lemma_text_le_order(a.path@, b.path@, c.path@);
    }

    fn le(&self, other: &Self) -> (r: bool) {
        !str_lt(other.path.as_str(), self.path.as_str())
    }
}

/// The receipt of one registry update.
#[derive(Clone, Debug, PartialEq, Eq)]
pub struct UpdateReceipt {
    pub status: &'static str,
    pub operation: &'static str,
    pub mode: &'static str,
    pub symbols: usize,
    pub artifacts: usize,
    /// The newly recorded symbol ids, sorted.
    pub recorded: Vec<String>,
}

/// The records a merge starts from.
pub open spec fn base_symbols(existing: Option<ConformedRegistry>) -> Seq<RecordView> {
    match existing {
        Some(x) => record_views(x.symbols@),
        None => Seq::empty(),
    }
}

/// The artifacts a merge starts from.
pub open spec fn base_artifacts(existing: Option<ConformedRegistry>) -> Seq<ArtifactContent> {
    match existing {
        Some(x) => artifact_contents(x.artifacts@),
        None => Seq::empty(),
    }
}

/// `out` holds, in some order, records with exactly the merged contents.
pub open spec fn permutes_records(out: Seq<ConformedSymbol>, merged: Seq<RecordView>) -> bool {
    exists|u: Seq<ConformedSymbol>| #[trigger] record_views(u) == merged && u.to_multiset() == out.to_multiset()
}

/// `out` holds, in some order, artifacts with exactly the merged contents.
pub open spec fn permutes_artifacts(out: Seq<SupportArtifact>, merged: Seq<ArtifactContent>) -> bool {
    exists|u: Seq<SupportArtifact>| #[trigger] artifact_contents(u) == merged && u.to_multiset() == out.to_multiset()
}

/// `out` holds, in some order, exactly the given texts.
pub open spec fn permutes_texts(out: Seq<String>, ids: Seq<Seq<char>>) -> bool {
    exists|u: Seq<String>| #[trigger] texts(u) == ids && u.to_multiset() == out.to_multiset()
}

/// The updated registry and its receipt.
pub open spec fn registry_result(reg: ConformedRegistry, receipt: UpdateReceipt, d: DeclarationDocument,
    existing: Option<ConformedRegistry>) -> bool {
    let a = d.adapter.id@;
    let rev = d.revision@;
    &&& match existing {
        Some(x) => reg.schema_version == x.schema_version && reg.identity == x.identity && reg.project == x.project
            && reg.mode == x.mode,
        None => reg.schema_version@ == SCHEMA_VERSION@ && reg.identity@ == IDENTITY@ && reg.project == d.project
            && reg.mode@ == MODE@,
    }
    &&& reg.adapter == d.adapter
    &&& reg.revision == d.revision
    &&& sorted(reg.symbols@)
    &&& permutes_records(reg.symbols@, merged_symbols(base_symbols(existing), d.symbols@, a, rev))
    &&& sorted(reg.artifacts@)
    &&& permutes_artifacts(reg.artifacts@, merged_artifacts(base_artifacts(existing), artifact_contents(d.artifacts@)))
    &&& receipt.status@ == "valid"@
    &&& receipt.operation@ == "conform"@
    &&& receipt.mode@ == "update"@
    &&& receipt.symbols == reg.symbols@.len()
    &&& receipt.artifacts == reg.artifacts@.len()
    &&& sorted(receipt.recorded@)
    &&& permutes_texts(receipt.recorded@, recorded_ids(base_symbols(existing), d.symbols@, a, rev))
}

/// What merging a declaration into a registry gives: the first problem
/// of the declaration, an exceeded bound, or the updated registry.
pub open spec fn merge_outcome(f: ProjectFacts, d: DeclarationDocument, existing: Option<ConformedRegistry>,
    r: Result<(ConformedRegistry, UpdateReceipt), DiagnosticSet>) -> bool {
    match declaration_problem(f, d) {
        Some(p) => r matches Err(e) && problem_set(e@, p),
        None => match symbol_overflow(base_symbols(existing), d.symbols@, d.adapter.id@, d.revision@) {
            Some(n) => r matches Err(e) && refusal_set(e@, RefusalView::Limit("symbols"@, n)),
            None => match artifact_overflow(base_artifacts(existing), artifact_contents(d.artifacts@)) {
                Some(n) => r matches Err(e) && refusal_set(e@, RefusalView::Limit("artifacts"@, n)),
                None => r matches Ok((reg, receipt)) && registry_result(reg, receipt, d, existing),
            },
        },
    }
}

/// Merge one validated declaration into the registry (or a new empty
/// registry): every declared symbol must exist canonically with the same
/// kind and module and claims fitting its kind; artifacts must name
/// canonical definitions. Known symbols are refreshed, new ones recorded;
/// artifacts upsert by path; both lists end sorted.
pub fn merge_declaration(facts: &ProjectFacts, declaration: DeclarationDocument, existing: Option<ConformedRegistry>)
    -> (r: Result<(ConformedRegistry, UpdateReceipt), DiagnosticSet>)
    ensures
        merge_outcome(*facts, declaration, existing, r),
{
    let ghost d = declaration;
    let ghost ex = existing;
    problem_of_declaration(facts, &declaration)?;
    let DeclarationDocument { adapter, project, revision, symbols, artifacts } = declaration;
    let adapter_id = adapter.id.clone();
    let (schema_version, identity, reg_project, mode, records, stored) = match existing {
        Some(x) => (x.schema_version, x.identity, x.project, x.mode, x.symbols, x.artifacts),
        None => (SCHEMA_VERSION.to_owned(), IDENTITY.to_owned(), project, MODE.to_owned(), Vec::new(), Vec::new()),
    };
    proof {
        assert(record_views(records@) == base_symbols(ex)) by {
            if ex is None {
                assert(record_views(records@) =~= Seq::<RecordView>::empty());
            }
        }
        assert(artifact_contents(stored@) == base_artifacts(ex)) by {
            if ex is None {
                assert(artifact_contents(stored@) =~= Seq::<ArtifactContent>::empty());
            }
        }
    }
    let (merged, recorded) = match merge_symbols(records, symbols, adapter_id.as_str(), revision.as_str()) {
        Ok(x) => x,
        Err(n) => return Err(super::diagnostic::declaration_limit_set("symbols", n)),
    };
    let merged_arts = match merge_artifacts(stored, artifacts) {
        Ok(x) => x,
        Err(n) => return Err(super::diagnostic::declaration_limit_set("artifacts", n)),
    };
    let ghost unsorted_symbols = merged@;
    let ghost unsorted_artifacts = merged_arts@;
    let ghost unsorted_recorded = recorded@;
    let sorted_symbols = sort(merged);
    let sorted_artifacts = sort(merged_arts);
    let sorted_recorded = sort(recorded);
    let symbol_count = sorted_symbols.len();
    let artifact_count = sorted_artifacts.len();
    let registry = ConformedRegistry {
        schema_version,
        identity,
        project: reg_project,
        mode,
        adapter,
        revision,
        symbols: sorted_symbols,
        artifacts: sorted_artifacts,
    };
    let receipt = UpdateReceipt {
        status: "valid",
        operation: "conform",
        mode: "update",
        symbols: symbol_count,
        artifacts: artifact_count,
        recorded: sorted_recorded,
    };
    proof {
        assert(permutes_records(registry.symbols@, merged_symbols(base_symbols(ex), d.symbols@, d.adapter.id@,
            d.revision@))) by {
            assert(record_views(unsorted_symbols) == merged_symbols(base_symbols(ex), d.symbols@, d.adapter.id@,
                d.revision@));
        }
        assert(permutes_artifacts(registry.artifacts@, merged_artifacts(base_artifacts(ex), artifact_contents(d.artifacts@))))
            by {
            assert(artifact_contents(unsorted_artifacts) == merged_artifacts(base_artifacts(ex), artifact_contents(d.artifacts@)));
        }
        assert(permutes_texts(receipt.recorded@, recorded_ids(base_symbols(ex), d.symbols@, d.adapter.id@, d.revision@)))
            by {
            assert(texts(unsorted_recorded) == recorded_ids(base_symbols(ex), d.symbols@, d.adapter.id@, d.revision@));
        }
        reveal_strlit("valid");
        reveal_strlit("conform");
        reveal_strlit("update");
    }
    Ok((registry, receipt))
}

/// The registry update for raw declaration bytes: the declaration is
/// parsed and validated first, then merged.
pub open spec fn update_outcome(f: ProjectFacts, bytes: Seq<u8>, existing: Option<ConformedRegistry>,
    r: Result<(ConformedRegistry, UpdateReceipt), DiagnosticSet>) -> bool {
    match declaration_outcome(bytes) {
        Err(e) => r matches Err(set) && refusal_set(set@, e),
        Ok(v) => exists|d: DeclarationDocument| #[trigger] document_matches(d, v) && merge_outcome(f, d, existing, r),
    }
}

/// Merge one adapter declaration, given as raw bytes, into the registry
/// (or create the registry).
pub fn update_registry(facts: &ProjectFacts, declaration_bytes: &[u8], existing: Option<ConformedRegistry>)
    -> (r: Result<(ConformedRegistry, UpdateReceipt), DiagnosticSet>)
    ensures
        update_outcome(*facts, declaration_bytes@, existing, r),
{
    let declaration = parse_declaration_bytes(declaration_bytes)?;
    let ghost d = declaration;
    let r = merge_declaration(facts, declaration, existing);
    proof {
        assert(document_matches(d, declaration_outcome(declaration_bytes@)->Ok_0));
    }
    r
}

} // verus!
