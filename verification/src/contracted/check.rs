//! The conformance check: every recorded binding in scope is held
//! against the canonical project, the canonical members recomputed from
//! it, and the fingerprints of the maintained files; support artifacts
//! against the digests of their current bytes. Any positive drift is a
//! registered diagnostic and fails the check; a binding without a
//! fingerprint is `unknown`, never conformant.

use vstd::prelude::*;
use crate::text::{str_eq, text_lt, str_lt};
use crate::diagnostics::set::DiagnosticSet;
use crate::diagnostics::item::{Diagnostic, DiagnosticView};
use crate::diagnostics::registry::{Lifecycle, find_rule, rule_table};
use crate::diagnostics::types::Status;
use super::diagnostic::{echo_of, token_item, token_set, try_coverage_item, try_drift_item, try_stale_artifact_item};
use super::types::{ConformedRegistry, ConformedSymbol, DeclaredEffect, SignatureEvidence, SignatureField, SupportArtifact,
    SupportKind, SymbolKind, module_segment};
use super::update::{ProjectFacts, SignatureContent, definition_kind, definition_kind_of, effect_contents,
    signature_content};

verus! {

/// What was found of one maintained file.
#[derive(Clone, Debug, PartialEq, Eq)]
pub enum FileState {
    /// The digest of its exact bytes.
    Digest(String),
    /// The file is missing or unreadable.
    Missing,
    /// The file is larger than the fingerprint bound: unknown evidence,
    /// never a truncated digest.
    OverBound,
}

/// What the check knows of one maintained file: its logical path and
/// what was found there.
#[derive(Clone, Debug, PartialEq, Eq)]
pub struct FileEvidence {
    pub path: String,
    pub state: FileState,
}

/// The canonical members of one definition, recomputed from the typed
/// project: its signature, when its kind carries one, and its declared
/// effects, sorted.
#[derive(Clone, Debug, PartialEq, Eq)]
pub struct CanonicalMembers {
    pub id: String,
    pub signature: Option<SignatureEvidence>,
    pub effects: Vec<DeclaredEffect>,
}

/// The digest recorded for the first evidence entry of `path`, if any.
pub open spec fn evidence_digest(ev: Seq<FileEvidence>, path: Seq<char>) -> Option<Seq<char>>
    decreases ev.len(),
{
    if ev.len() == 0 {
        None
    } else if ev[0].path@ == path {
        match ev[0].state {
            FileState::Digest(d) => Some(d@),
            _ => None,
        }
    } else {
        evidence_digest(ev.drop_first(), path)
    }
}

/// Whether the first evidence entry of `path` found it over the
/// fingerprint bound.
pub open spec fn evidence_over_bound(ev: Seq<FileEvidence>, path: Seq<char>) -> bool
    decreases ev.len(),
{
    if ev.len() == 0 {
        false
    } else if ev[0].path@ == path {
        ev[0].state is OverBound
    } else {
        evidence_over_bound(ev.drop_first(), path)
    }
}

/// The first canonical members entry of `id`, if any.
pub open spec fn members_of(ms: Seq<CanonicalMembers>, id: Seq<char>) -> Option<CanonicalMembers>
    decreases ms.len(),
{
    if ms.len() == 0 {
        None
    } else if ms[0].id@ == id {
        Some(ms[0])
    } else {
        members_of(ms.drop_first(), id)
    }
}

/// One signature input inserted into a name-sorted list, after every
/// input whose name sorts no later.
pub open spec fn insert_by_name(s: Seq<(Seq<char>, Seq<char>, bool)>, x: (Seq<char>, Seq<char>, bool))
    -> Seq<(Seq<char>, Seq<char>, bool)>
    decreases s.len(),
{
    if s.len() == 0 {
        seq![x]
    } else if text_lt(x.0, s[0].0) {
        seq![x] + s
    } else {
        seq![s[0]] + insert_by_name(s.drop_first(), x)
    }
}

/// The inputs stably sorted by name.
pub open spec fn sort_by_name(s: Seq<(Seq<char>, Seq<char>, bool)>) -> Seq<(Seq<char>, Seq<char>, bool)>
    decreases s.len(),
{
    if s.len() == 0 {
        s
    } else {
        insert_by_name(sort_by_name(s.drop_last()), s.last())
    }
}

/// A claimed signature matches the canonical one: the inputs as a
/// name-keyed list (the claim's order does not count), the output and
/// the reads exactly.
pub open spec fn signature_matches(claim: SignatureContent, canonical: SignatureContent) -> bool {
    &&& sort_by_name(claim.inputs) == canonical.inputs
    &&& claim.output == canonical.output
    &&& claim.reads == canonical.reads
}

/// Whether an id falls in the checked scope.
pub open spec fn in_scope(module: Option<Seq<char>>, id: Seq<char>) -> bool {
    module matches Some(m) ==> module_segment(id) == Some(m)
}

/// Whether some artifact is a test skeleton owned by `id`.
pub open spec fn has_skeleton(arts: Seq<SupportArtifact>, id: Seq<char>) -> bool {
    exists|i: int| 0 <= i < arts.len() && #[trigger] arts[i].symbol@ == id && arts[i].kind == SupportKind::TestSkeleton
}

/// Whether the kind matches the canonical definition.
pub open spec fn kind_known(f: ProjectFacts, r: ConformedSymbol) -> bool {
    definition_kind(f.definitions@, r.id@) == Some(r.kind.spec_text())
}

/// The fingerprint drift of one record, if any: a source over the
/// fingerprint bound is unknown evidence, never drift.
pub open spec fn fingerprint_drift(ev: Seq<FileEvidence>, r: ConformedSymbol) -> Option<Seq<char>> {
    match r.fingerprint {
        None => None,
        Some(d) => match evidence_digest(ev, r.source.path@) {
            Some(a) => if a == d@ { None } else { Some("fingerprint-mismatch"@) },
            None => if evidence_over_bound(ev, r.source.path@) { None } else { Some("source-missing"@) },
        },
    }
}

/// Whether the fingerprint evidence of one record is unknown: no
/// recorded fingerprint, or a source over the fingerprint bound.
pub open spec fn fingerprint_unknown(ev: Seq<FileEvidence>, r: ConformedSymbol) -> bool {
    r.fingerprint is None || evidence_over_bound(ev, r.source.path@)
}

/// The drift details of one record in scope, in the order they are
/// found.
pub open spec fn record_details(f: ProjectFacts, ms: Seq<CanonicalMembers>, arts: Seq<SupportArtifact>,
    ev: Seq<FileEvidence>, r: ConformedSymbol) -> Seq<Seq<char>> {
    match definition_kind(f.definitions@, r.id@) {
        None => seq!["symbol-missing-from-model"@],
        Some(k) => if k != r.kind.spec_text() {
            seq!["kind-mismatch"@]
        } else {
            let fp = match fingerprint_drift(ev, r) { Some(d) => seq![d], None => Seq::empty() };
            let cov = if (r.kind == SymbolKind::Command || r.kind == SymbolKind::Query) && r.native_tests@.len() == 0
                && !has_skeleton(arts, r.id@) { seq!["coverage-missing"@] } else { Seq::empty() };
            let m = members_of(ms, r.id@);
            let sig = if r.signature is Some && (m matches Some(c) && c.signature is Some
                && !signature_matches(signature_content(r.signature).unwrap(), signature_content(c.signature).unwrap())) {
                seq!["signature"@]
            } else {
                Seq::empty()
            };
            let eff = if (m matches Some(c) && effect_contents(c.effects@) != effect_contents(r.effects@)) {
                seq!["effects"@]
            } else {
                Seq::empty()
            };
            fp + cov + sig + eff
        },
    }
}

/// The rows `(subject, detail)` of a list of details of one subject.
pub open spec fn rows_of(subject: Seq<char>, ds: Seq<Seq<char>>) -> Seq<(Seq<char>, Seq<char>)> {
    ds.map_values(|d: Seq<char>| (subject, d))
}

/// The drift rows of the records in scope, in record order.
pub open spec fn symbol_rows(f: ProjectFacts, ms: Seq<CanonicalMembers>, reg: ConformedRegistry, ev: Seq<FileEvidence>,
    module: Option<Seq<char>>, recs: Seq<ConformedSymbol>) -> Seq<(Seq<char>, Seq<char>)>
    decreases recs.len(),
{
    if recs.len() == 0 {
        Seq::empty()
    } else {
        let prev = symbol_rows(f, ms, reg, ev, module, recs.drop_last());
        let r = recs.last();
        if in_scope(module, r.id@) {
            prev + rows_of(r.id@, record_details(f, ms, reg.artifacts@, ev, r))
        } else {
            prev
        }
    }
}

/// Whether the registry records a binding of `id`.
pub open spec fn recorded(reg: ConformedRegistry, id: Seq<char>) -> bool {
    exists|i: int| 0 <= i < reg.symbols@.len() && #[trigger] reg.symbols@[i].id@ == id
}

/// The unimplemented canonical operations of the checked module, in
/// definition order; none when the check is not scoped to a module.
pub open spec fn unimplemented_rows(reg: ConformedRegistry, module: Option<Seq<char>>, defs: Seq<(String, String)>)
    -> Seq<(Seq<char>, Seq<char>)>
    decreases defs.len(),
{
    if defs.len() == 0 {
        Seq::empty()
    } else {
        let prev = unimplemented_rows(reg, module, defs.drop_last());
        let d = defs.last();
        if module is Some && (d.1@ == "command"@ || d.1@ == "query"@) && in_scope(module, d.0@) && !recorded(reg, d.0@) {
            prev.push((d.0@, "unimplemented"@))
        } else {
            prev
        }
    }
}

/// The staleness of one artifact, if any: an artifact without a digest
/// is only checked to exist, and one over the fingerprint bound is
/// unknown evidence, never drift.
pub open spec fn artifact_drift(ev: Seq<FileEvidence>, a: SupportArtifact) -> Option<Seq<char>> {
    if evidence_over_bound(ev, a.path@) {
        None
    } else {
        match a.digest {
            None => if evidence_digest(ev, a.path@) is Some { None } else { Some("artifact-missing"@) },
            Some(d) => match evidence_digest(ev, a.path@) {
                Some(x) => if x == d@ { None } else { Some("content-stale"@) },
                None => Some("artifact-missing"@),
            },
        }
    }
}

/// The drift rows of the artifacts in scope, in artifact order.
pub open spec fn artifact_rows(ev: Seq<FileEvidence>, module: Option<Seq<char>>, arts: Seq<SupportArtifact>)
    -> Seq<(Seq<char>, Seq<char>)>
    decreases arts.len(),
{
    if arts.len() == 0 {
        Seq::empty()
    } else {
        let prev = artifact_rows(ev, module, arts.drop_last());
        let a = arts.last();
        if in_scope(module, a.symbol@) && artifact_drift(ev, a) is Some {
            prev.push((a.path@, artifact_drift(ev, a).unwrap()))
        } else {
            prev
        }
    }
}

/// Every drift row of one check.
pub open spec fn check_rows(f: ProjectFacts, ms: Seq<CanonicalMembers>, reg: ConformedRegistry, ev: Seq<FileEvidence>,
    module: Option<Seq<char>>) -> Seq<(Seq<char>, Seq<char>)> {
    symbol_rows(f, ms, reg, ev, module, reg.symbols@) + unimplemented_rows(reg, module, f.definitions@)
        + artifact_rows(ev, module, reg.artifacts@)
}

/// The registered diagnostic of one drift row.
pub open spec fn row_item(d: DiagnosticView, row: (Seq<char>, Seq<char>)) -> bool {
    if row.1 == "coverage-missing"@ {
        token_item(d, "contracted.coverage-missing"@, Some(echo_of(row.0)), "detail"@, "no-native-test"@)
    } else if row.1 == "artifact-missing"@ || row.1 == "content-stale"@ {
        token_item(d, "contracted.stale-artifact"@, Some(echo_of(row.0)), "detail"@, "content-stale"@)
    } else {
        token_item(d, "contracted.binding-drift"@, Some(echo_of(row.0)), "detail"@, row.1)
    }
}

/// The counts of one check over the records in scope: checked,
/// conformant, stale, unknown.
pub open spec fn symbol_counts(f: ProjectFacts, ev: Seq<FileEvidence>, module: Option<Seq<char>>, recs: Seq<ConformedSymbol>)
    -> (nat, nat, nat, nat)
    decreases recs.len(),
{
    if recs.len() == 0 {
        (0, 0, 0, 0)
    } else {
        let p = symbol_counts(f, ev, module, recs.drop_last());
        let r = recs.last();
        if !in_scope(module, r.id@) {
            p
        } else if !kind_known(f, r) {
            (p.0 + 1, p.1, p.2, p.3)
        } else if fingerprint_unknown(ev, r) {
            (p.0 + 1, p.1, p.2, p.3 + 1)
        } else if fingerprint_drift(ev, r) is None {
            (p.0 + 1, p.1 + 1, p.2, p.3)
        } else {
            (p.0 + 1, p.1, p.2 + 1, p.3)
        }
    }
}

/// The artifacts in scope.
pub open spec fn artifacts_in_scope(module: Option<Seq<char>>, arts: Seq<SupportArtifact>) -> nat
    decreases arts.len(),
{
    if arts.len() == 0 {
        0
    } else {
        artifacts_in_scope(module, arts.drop_last()) + if in_scope(module, arts.last().symbol@) { 1nat } else { 0nat }
    }
}

// ---------------------------------------------------------------------
// Executable steps

fn evidence_of<'a>(ev: &'a Vec<FileEvidence>, path: &str) -> (r: (Option<&'a str>, bool))
    ensures
        match r.0 {
            Some(d) => evidence_digest(ev@, path@) == Some(d@),
            None => evidence_digest(ev@, path@) is None,
        },
        r.1 == evidence_over_bound(ev@, path@),
{
    let mut i: usize = 0;
    assert(ev@.subrange(0, ev@.len() as int) =~= ev@);
    while i < ev.len()
        invariant
            i <= ev@.len(),
            evidence_digest(ev@, path@) == evidence_digest(ev@.subrange(i as int, ev@.len() as int), path@),
            evidence_over_bound(ev@, path@) == evidence_over_bound(ev@.subrange(i as int, ev@.len() as int), path@),
        decreases ev@.len() - i,
    {
        assert(ev@.subrange(i as int, ev@.len() as int).drop_first() =~= ev@.subrange(i + 1, ev@.len() as int));
        assert(ev@.subrange(i as int, ev@.len() as int)[0] == ev@[i as int]);
        if str_eq(ev[i].path.as_str(), path) {
            return match &ev[i].state {
                FileState::Digest(d) => (Some(d.as_str()), false),
                FileState::Missing => (None, false),
                FileState::OverBound => (None, true),
            };
        }
        i = i + 1;
    }
    (None, false)
}

fn members_find<'a>(ms: &'a Vec<CanonicalMembers>, id: &str) -> (r: Option<&'a CanonicalMembers>)
    ensures
        match r {
            Some(m) => members_of(ms@, id@) == Some(*m),
            None => members_of(ms@, id@) is None,
        },
{
    let mut i: usize = 0;
    assert(ms@.subrange(0, ms@.len() as int) =~= ms@);
    while i < ms.len()
        invariant
            i <= ms@.len(),
            members_of(ms@, id@) == members_of(ms@.subrange(i as int, ms@.len() as int), id@),
        decreases ms@.len() - i,
    {
        assert(ms@.subrange(i as int, ms@.len() as int).drop_first() =~= ms@.subrange(i + 1, ms@.len() as int));
        assert(ms@.subrange(i as int, ms@.len() as int)[0] == ms@[i as int]);
        if str_eq(ms[i].id.as_str(), id) {
            return Some(&ms[i]);
        }
        i = i + 1;
    }
    None
}

/// The content of input fields.
pub open spec fn input_contents(s: Seq<&SignatureField>) -> Seq<(Seq<char>, Seq<char>, bool)> {
    s.map_values(|f: &SignatureField| (f.name@, f.ty@, f.required))
}

/// The first position whose name sorts strictly after `x`'s.
spec fn insert_position(s: Seq<(Seq<char>, Seq<char>, bool)>, x: (Seq<char>, Seq<char>, bool)) -> int
    decreases s.len(),
{
    if s.len() == 0 {
        0
    } else if text_lt(x.0, s[0].0) {
        0
    } else {
        1 + insert_position(s.drop_first(), x)
    }
}

proof fn lemma_insert_position(s: Seq<(Seq<char>, Seq<char>, bool)>, x: (Seq<char>, Seq<char>, bool))
    ensures
        0 <= insert_position(s, x) <= s.len(),
        forall|j: int| 0 <= j < insert_position(s, x) ==> !text_lt(x.0, #[trigger] s[j].0),
        insert_position(s, x) < s.len() ==> text_lt(x.0, s[insert_position(s, x)].0),
        insert_by_name(s, x) == s.insert(insert_position(s, x), x),
    decreases s.len(),
{
    if s.len() > 0 && !text_lt(x.0, s[0].0) {
        lemma_insert_position(s.drop_first(), x);
        assert forall|j: int| 0 <= j < insert_position(s, x) implies !text_lt(x.0, #[trigger] s[j].0) by {
            if j > 0 {
                assert(s[j] == s.drop_first()[j - 1]);
            }
        }
        assert(insert_by_name(s, x) =~= s.insert(insert_position(s, x), x));
    } else if s.len() > 0 {
        assert(insert_by_name(s, x) =~= s.insert(0, x));
    } else {
        assert(insert_by_name(s, x) =~= s.insert(0, x));
    }
}

/// The first position of `out` whose name sorts strictly after `name`.
fn position_after(out: &Vec<&SignatureField>, x: &SignatureField) -> (r: usize)
    ensures
        r as int == insert_position(input_contents(out@), (x.name@, x.ty@, x.required)),
{
    let ghost c = input_contents(out@);
    let ghost xv = (x.name@, x.ty@, x.required);
    proof { lemma_insert_position(c, xv); }
    let mut i: usize = 0;
    while i < out.len()
        invariant
            c == input_contents(out@),
            xv == (x.name@, x.ty@, x.required),
            0 <= insert_position(c, xv) <= c.len(),
            forall|j: int| 0 <= j < insert_position(c, xv) ==> !text_lt(xv.0, #[trigger] c[j].0),
            insert_position(c, xv) < c.len() ==> text_lt(xv.0, c[insert_position(c, xv)].0),
            i <= out@.len(),
            i <= insert_position(c, xv),
        decreases out@.len() - i,
    {
        assert(c[i as int].0 == out@[i as int].name@);
        if str_lt(x.name.as_str(), out[i].name.as_str()) {
            return i;
        }
        i = i + 1;
    }
    i
}

/// The input fields stably sorted by name.
fn sorted_inputs(fields: &Vec<SignatureField>) -> (r: Vec<&SignatureField>)
    ensures
        input_contents(r@) == sort_by_name(fields@.map_values(|f: SignatureField| (f.name@, f.ty@, f.required))),
{
    let ghost all = fields@.map_values(|f: SignatureField| (f.name@, f.ty@, f.required));
    let mut out: Vec<&SignatureField> = Vec::new();
    let mut i: usize = 0;
    assert(all.take(0) =~= Seq::<(Seq<char>, Seq<char>, bool)>::empty());
    assert(input_contents(out@) =~= Seq::<(Seq<char>, Seq<char>, bool)>::empty());
    while i < fields.len()
        invariant
            all == fields@.map_values(|f: SignatureField| (f.name@, f.ty@, f.required)),
            i <= fields@.len(),
            input_contents(out@) == sort_by_name(all.take(i as int)),
        decreases fields@.len() - i,
    {
        let x = &fields[i];
        let p = position_after(&out, x);
        let ghost before = input_contents(out@);
        proof {
            lemma_insert_position(before, (x.name@, x.ty@, x.required));
            assert(all.take(i + 1).drop_last() =~= all.take(i as int));
            assert(all.take(i + 1).last() == (x.name@, x.ty@, x.required));
        }
        out.insert(p, x);
        assert(input_contents(out@) =~= before.insert(p as int, (x.name@, x.ty@, x.required)));
        i = i + 1;
    }
    assert(all.take(fields@.len() as int) =~= all);
    out
}

fn same_text_lists(a: &Vec<String>, b: &Vec<String>) -> (r: bool)
    ensures
        r == (a@.map_values(|t: String| t@) == b@.map_values(|t: String| t@)),
{
    if a.len() != b.len() {
        assert(a@.map_values(|t: String| t@).len() != b@.map_values(|t: String| t@).len());
        return false;
    }
    let mut i: usize = 0;
    while i < a.len()
        invariant
            a@.len() == b@.len(),
            i <= a@.len(),
            forall|j: int| 0 <= j < i ==> a@[j]@ == b@[j]@,
        decreases a@.len() - i,
    {
        if !str_eq(a[i].as_str(), b[i].as_str()) {
            assert(a@.map_values(|t: String| t@)[i as int] != b@.map_values(|t: String| t@)[i as int]);
            return false;
        }
        i = i + 1;
    }
    assert(a@.map_values(|t: String| t@) =~= b@.map_values(|t: String| t@));
    true
}

fn same_optional_text(a: &Option<String>, b: &Option<String>) -> (r: bool)
    ensures
        r == (super::update::opt_text(*a) == super::update::opt_text(*b)),
{
    match (a, b) {
        (Some(x), Some(y)) => str_eq(x.as_str(), y.as_str()),
        (None, None) => true,
        _ => false,
    }
}

/// Whether a claimed signature matches the canonical one.
fn signature_ok(claim: &SignatureEvidence, canonical: &SignatureEvidence) -> (r: bool)
    ensures
        r == signature_matches(signature_content(Some(*claim)).unwrap(), signature_content(Some(*canonical)).unwrap()),
{
    let sorted = sorted_inputs(&claim.inputs);
    let ghost want = canonical.inputs@.map_values(|f: SignatureField| (f.name@, f.ty@, f.required));
    let mut same = sorted.len() == canonical.inputs.len();
    if same {
        let mut i: usize = 0;
        while i < sorted.len()
            invariant
                sorted@.len() == canonical.inputs@.len(),
                want == canonical.inputs@.map_values(|f: SignatureField| (f.name@, f.ty@, f.required)),
                i <= sorted@.len(),
                same == forall|j: int| 0 <= j < i ==> #[trigger] input_contents(sorted@)[j] == want[j],
            decreases sorted@.len() - i,
        {
            let a = sorted[i];
            let b = &canonical.inputs[i];
            assert(input_contents(sorted@)[i as int] == (a.name@, a.ty@, a.required));
            assert(want[i as int] == (b.name@, b.ty@, b.required));
            if !(str_eq(a.name.as_str(), b.name.as_str()) && str_eq(a.ty.as_str(), b.ty.as_str()) && a.required == b.required) {
                same = false;
            }
            i = i + 1;
        }
        proof {
            if same {
                assert(input_contents(sorted@) =~= want);
            }
        }
    } else {
        assert(input_contents(sorted@).len() != want.len());
    }
    same && same_optional_text(&claim.output, &canonical.output) && same_text_lists(&claim.reads, &canonical.reads)
}

fn same_effects(a: &Vec<DeclaredEffect>, b: &Vec<DeclaredEffect>) -> (r: bool)
    ensures
        r == (effect_contents(a@) == effect_contents(b@)),
{
    if a.len() != b.len() {
        assert(effect_contents(a@).len() != effect_contents(b@).len());
        return false;
    }
    let mut i: usize = 0;
    while i < a.len()
        invariant
            a@.len() == b@.len(),
            i <= a@.len(),
            forall|j: int| 0 <= j < i ==> #[trigger] effect_contents(a@)[j] == effect_contents(b@)[j],
        decreases a@.len() - i,
    {
        assert(effect_contents(a@)[i as int] == (a@[i as int].kind@, a@[i as int].subject@));
        assert(effect_contents(b@)[i as int] == (b@[i as int].kind@, b@[i as int].subject@));
        if !(str_eq(a[i].kind.as_str(), b[i].kind.as_str()) && str_eq(a[i].subject.as_str(), b[i].subject.as_str())) {
            return false;
        }
        i = i + 1;
    }
    assert(effect_contents(a@) =~= effect_contents(b@));
    true
}

fn skeleton_of(arts: &Vec<SupportArtifact>, id: &str) -> (r: bool)
    ensures
        r == has_skeleton(arts@, id@),
{
    let mut i: usize = 0;
    while i < arts.len()
        invariant
            i <= arts@.len(),
            forall|j: int| 0 <= j < i ==> !(#[trigger] arts@[j].symbol@ == id@ && arts@[j].kind == SupportKind::TestSkeleton),
        decreases arts@.len() - i,
    {
        if str_eq(arts[i].symbol.as_str(), id) && arts[i].kind == SupportKind::TestSkeleton {
            return true;
        }
        i = i + 1;
    }
    false
}

/// The drift details of one record.
fn details_of(f: &ProjectFacts, ms: &Vec<CanonicalMembers>, arts: &Vec<SupportArtifact>, ev: &Vec<FileEvidence>,
    r: &ConformedSymbol) -> (d: Vec<&'static str>)
    ensures
        d@.map_values(|t: &str| t@) == record_details(*f, ms@, arts@, ev@, *r),
{
    proof {
        reveal_strlit("symbol-missing-from-model");
        reveal_strlit("kind-mismatch");
        reveal_strlit("fingerprint-mismatch");
        reveal_strlit("source-missing");
        reveal_strlit("coverage-missing");
        reveal_strlit("signature");
        reveal_strlit("effects");
    }
    let mut d: Vec<&'static str> = Vec::new();
    let k = match definition_kind_of(&f.definitions, r.id.as_str()) {
        None => {
            d.push("symbol-missing-from-model");
            assert(d@.map_values(|t: &str| t@) =~= record_details(*f, ms@, arts@, ev@, *r));
            return d;
        },
        Some(k) => k,
    };
    if !str_eq(k, r.kind.key()) {
        d.push("kind-mismatch");
        assert(d@.map_values(|t: &str| t@) =~= record_details(*f, ms@, arts@, ev@, *r));
        return d;
    }
    let ghost fp: Seq<Seq<char>> = match fingerprint_drift(ev@, *r) { Some(x) => seq![x], None => Seq::empty() };
    match &r.fingerprint {
        None => {},
        Some(digest) => match evidence_of(ev, r.source.path.as_str()) {
            (Some(actual), _) => if !str_eq(actual, digest.as_str()) {
                d.push("fingerprint-mismatch");
            },
            (None, over) => if !over {
                d.push("source-missing");
            },
        },
    }
    assert(d@.map_values(|t: &str| t@) =~= fp);
    let operation = match r.kind {
        SymbolKind::Command | SymbolKind::Query => true,
        _ => false,
    };
    let ghost cov: Seq<Seq<char>> = if (r.kind == SymbolKind::Command || r.kind == SymbolKind::Query) && r.native_tests@.len() == 0
        && !has_skeleton(arts@, r.id@) { seq!["coverage-missing"@] } else { Seq::empty() };
    if operation && r.native_tests.len() == 0 && !skeleton_of(arts, r.id.as_str()) {
        d.push("coverage-missing");
    }
    assert(d@.map_values(|t: &str| t@) =~= fp + cov);
    let m = members_find(ms, r.id.as_str());
    let ghost mv = members_of(ms@, r.id@);
    let ghost sig: Seq<Seq<char>> = if r.signature is Some && (mv matches Some(c) && c.signature is Some
        && !signature_matches(signature_content(r.signature).unwrap(), signature_content(c.signature).unwrap())) {
        seq!["signature"@]
    } else {
        Seq::empty()
    };
    match (&r.signature, m) {
        (Some(claim), Some(c)) => match &c.signature {
            Some(canonical) => if !signature_ok(claim, canonical) {
                d.push("signature");
            },
            None => {},
        },
        _ => {},
    }
    assert(d@.map_values(|t: &str| t@) =~= fp + cov + sig);
    let ghost eff: Seq<Seq<char>> = if (mv matches Some(c) && effect_contents(c.effects@) != effect_contents(r.effects@)) {
        seq!["effects"@]
    } else {
        Seq::empty()
    };
    match m {
        Some(c) => if !same_effects(&c.effects, &r.effects) {
            d.push("effects");
        },
        None => {},
    }
    assert(d@.map_values(|t: &str| t@) =~= fp + cov + sig + eff);
    d
}

/// The views of drift rows.
pub open spec fn row_views(rows: Seq<(String, &str)>) -> Seq<(Seq<char>, Seq<char>)> {
    rows.map_values(|x: (String, &str)| (x.0@, x.1@))
}

/// The item of one row.
fn item_of(subject: &str, detail: &str) -> (r: Diagnostic)
    ensures
        row_item(r@, (subject@, detail@)),
{
    proof {
        reveal_strlit("coverage-missing");
        reveal_strlit("artifact-missing");
        reveal_strlit("content-stale");
    }
    let item = if str_eq(detail, "coverage-missing") {
        try_coverage_item(subject)
    } else if str_eq(detail, "artifact-missing") || str_eq(detail, "content-stale") {
        try_stale_artifact_item(subject)
    } else {
        try_drift_item(subject, detail)
    };
    match item {
        Some(d) => d,
        None => vstd::pervasive::unreached(),
    }
}

/// Append one row and its item.
fn push_row(rows: &mut Vec<(String, &'static str)>, items: &mut Vec<Diagnostic>, subject: &str, detail: &'static str)
    requires
        old(rows)@.len() == old(items)@.len(),
        forall|k: int| 0 <= k < old(items)@.len() ==> row_item(#[trigger] old(items)@[k]@, row_views(old(rows)@)[k]),
    ensures
        row_views(final(rows)@) == row_views(old(rows)@).push((subject@, detail@)),
        final(rows)@.len() == final(items)@.len(),
        forall|k: int| 0 <= k < final(items)@.len() ==> row_item(#[trigger] final(items)@[k]@, row_views(final(rows)@)[k]),
{
    let ghost rv = row_views(rows@);
    let ghost iv = items@;
    items.push(item_of(subject, detail));
    rows.push((subject.to_owned(), detail));
    assert(row_views(rows@) =~= rv.push((subject@, detail@)));
    assert forall|k: int| 0 <= k < items@.len() implies row_item(#[trigger] items@[k]@, row_views(rows@)[k]) by {
        if k < iv.len() {
            assert(items@[k] == iv[k]);
        }
    }
}

/// The view of an optional module.
pub open spec fn opt_module(m: Option<&str>) -> Option<Seq<char>> {
    match m {
        Some(x) => Some(x@),
        None => None,
    }
}

fn scoped(module: Option<&str>, id: &str) -> (r: bool)
    ensures
        r == in_scope(opt_module(module), id@),
{
    match module {
        None => true,
        Some(m) => match ConformedRegistry::module_of(id) {
            Some(x) => str_eq(x, m),
            None => false,
        },
    }
}

/// The rows and counts of the records in scope.
fn scan_symbols(f: &ProjectFacts, ms: &Vec<CanonicalMembers>, reg: &ConformedRegistry, ev: &Vec<FileEvidence>,
    module: Option<&str>, rows: &mut Vec<(String, &'static str)>, items: &mut Vec<Diagnostic>)
    -> (c: (usize, usize, usize, usize))
    requires
        old(rows)@.len() == old(items)@.len(),
        forall|k: int| 0 <= k < old(items)@.len() ==> row_item(#[trigger] old(items)@[k]@, row_views(old(rows)@)[k]),
    ensures
        row_views(final(rows)@) == row_views(old(rows)@) + symbol_rows(*f, ms@, *reg, ev@, opt_module(module), reg.symbols@),
        final(rows)@.len() == final(items)@.len(),
        forall|k: int| 0 <= k < final(items)@.len() ==> row_item(#[trigger] final(items)@[k]@, row_views(final(rows)@)[k]),
        (c.0 as nat, c.1 as nat, c.2 as nat, c.3 as nat) == symbol_counts(*f, ev@, opt_module(module), reg.symbols@),
{
    let ghost base = row_views(rows@);
    let ghost recs = reg.symbols@;
    let ghost mv = opt_module(module);
    let mut checked: usize = 0;
    let mut conformant: usize = 0;
    let mut stale: usize = 0;
    let mut unknown: usize = 0;
    let mut i: usize = 0;
    assert(recs.take(0) =~= Seq::<ConformedSymbol>::empty());
    assert(base + symbol_rows(*f, ms@, *reg, ev@, mv, recs.take(0)) =~= base);
    while i < reg.symbols.len()
        invariant
            recs == reg.symbols@,
            mv == opt_module(module),
            i <= recs.len(),
            rows@.len() == items@.len(),
            forall|k: int| 0 <= k < items@.len() ==> row_item(#[trigger] items@[k]@, row_views(rows@)[k]),
            row_views(rows@) == base + symbol_rows(*f, ms@, *reg, ev@, mv, recs.take(i as int)),
            (checked as nat, conformant as nat, stale as nat, unknown as nat) == symbol_counts(*f, ev@, mv, recs.take(i as int)),
            checked <= i,
            conformant <= checked,
            stale <= checked,
            unknown <= checked,
        decreases recs.len() - i,
    {
        let r = &reg.symbols[i];
        proof {
            assert(recs.take(i + 1).drop_last() =~= recs.take(i as int));
            assert(recs.take(i + 1).last() == *r);
        }
        if scoped(module, r.id.as_str()) {
            let details = details_of(f, ms, &reg.artifacts, ev, r);
            let ghost dv = details@.map_values(|t: &str| t@);
            let ghost before = row_views(rows@);
            let mut j: usize = 0;
            assert(dv.take(0) =~= Seq::<Seq<char>>::empty());
            assert(before + rows_of(r.id@, dv.take(0)) =~= before);
            while j < details.len()
                invariant
                    dv == details@.map_values(|t: &str| t@),
                    j <= details@.len(),
                    rows@.len() == items@.len(),
                    forall|k: int| 0 <= k < items@.len() ==> row_item(#[trigger] items@[k]@, row_views(rows@)[k]),
                    row_views(rows@) == before + rows_of(r.id@, dv.take(j as int)),
                decreases details@.len() - j,
            {
                let ghost prev = row_views(rows@);
                push_row(rows, items, r.id.as_str(), details[j]);
                assert(before + rows_of(r.id@, dv.take(j + 1)) =~= prev.push((r.id@, details@[j as int]@)));
                j = j + 1;
            }
            assert(dv.take(details@.len() as int) =~= dv);
            checked = checked + 1;
            let known = match definition_kind_of(&f.definitions, r.id.as_str()) {
                Some(k) => str_eq(k, r.kind.key()),
                None => false,
            };
            if known {
                match &r.fingerprint {
                    None => unknown = unknown + 1,
                    Some(digest) => {
                        let (actual, over) = evidence_of(ev, r.source.path.as_str());
                        let fresh = match actual {
                            Some(a) => str_eq(a, digest.as_str()),
                            None => false,
                        };
                        if over {
                            unknown = unknown + 1;
                        } else if fresh {
                            conformant = conformant + 1;
                        } else {
                            stale = stale + 1;
                        }
                    },
                }
            }
        }
        i = i + 1;
    }
    assert(recs.take(recs.len() as int) =~= recs);
    (checked, conformant, stale, unknown)
}

fn is_recorded(reg: &ConformedRegistry, id: &str) -> (r: bool)
    ensures
        r == recorded(*reg, id@),
{
    let mut i: usize = 0;
    while i < reg.symbols.len()
        invariant
            i <= reg.symbols@.len(),
            forall|j: int| 0 <= j < i ==> #[trigger] reg.symbols@[j].id@ != id@,
        decreases reg.symbols@.len() - i,
    {
        if str_eq(reg.symbols[i].id.as_str(), id) {
            return true;
        }
        i = i + 1;
    }
    false
}

/// The unimplemented operations of the checked module.
fn scan_unimplemented(f: &ProjectFacts, reg: &ConformedRegistry, module: Option<&str>,
    rows: &mut Vec<(String, &'static str)>, items: &mut Vec<Diagnostic>)
    requires
        old(rows)@.len() == old(items)@.len(),
        forall|k: int| 0 <= k < old(items)@.len() ==> row_item(#[trigger] old(items)@[k]@, row_views(old(rows)@)[k]),
    ensures
        row_views(final(rows)@) == row_views(old(rows)@) + unimplemented_rows(*reg, opt_module(module), f.definitions@),
        final(rows)@.len() == final(items)@.len(),
        forall|k: int| 0 <= k < final(items)@.len() ==> row_item(#[trigger] final(items)@[k]@, row_views(final(rows)@)[k]),
{
    proof {
        reveal_strlit("command");
        reveal_strlit("query");
        reveal_strlit("unimplemented");
    }
    let ghost base = row_views(rows@);
    let ghost defs = f.definitions@;
    let ghost mv = opt_module(module);
    let mut i: usize = 0;
    assert(defs.take(0) =~= Seq::<(String, String)>::empty());
    assert(base + unimplemented_rows(*reg, mv, defs.take(0)) =~= base);
    while i < f.definitions.len()
        invariant
            defs == f.definitions@,
            mv == opt_module(module),
            i <= defs.len(),
            rows@.len() == items@.len(),
            forall|k: int| 0 <= k < items@.len() ==> row_item(#[trigger] items@[k]@, row_views(rows@)[k]),
            row_views(rows@) == base + unimplemented_rows(*reg, mv, defs.take(i as int)),
        decreases defs.len() - i,
    {
        let d = &f.definitions[i];
        proof {
            assert(defs.take(i + 1).drop_last() =~= defs.take(i as int));
            assert(defs.take(i + 1).last() == *d);
        }
        let operation = str_eq(d.1.as_str(), "command") || str_eq(d.1.as_str(), "query");
        if module.is_some() && operation && scoped(module, d.0.as_str()) && !is_recorded(reg, d.0.as_str()) {
            let ghost prev = row_views(rows@);
            push_row(rows, items, d.0.as_str(), "unimplemented");
            assert(base + unimplemented_rows(*reg, mv, defs.take(i + 1)) =~= prev.push((d.0@, "unimplemented"@)));
        }
        i = i + 1;
    }
    assert(defs.take(defs.len() as int) =~= defs);
}

/// The stale artifacts in scope, and how many artifacts are in scope.
fn scan_artifacts(reg: &ConformedRegistry, ev: &Vec<FileEvidence>, module: Option<&str>,
    rows: &mut Vec<(String, &'static str)>, items: &mut Vec<Diagnostic>) -> (n: usize)
    requires
        old(rows)@.len() == old(items)@.len(),
        forall|k: int| 0 <= k < old(items)@.len() ==> row_item(#[trigger] old(items)@[k]@, row_views(old(rows)@)[k]),
    ensures
        row_views(final(rows)@) == row_views(old(rows)@) + artifact_rows(ev@, opt_module(module), reg.artifacts@),
        final(rows)@.len() == final(items)@.len(),
        forall|k: int| 0 <= k < final(items)@.len() ==> row_item(#[trigger] final(items)@[k]@, row_views(final(rows)@)[k]),
        n as nat == artifacts_in_scope(opt_module(module), reg.artifacts@),
{
    proof {
        reveal_strlit("artifact-missing");
        reveal_strlit("content-stale");
    }
    let ghost base = row_views(rows@);
    let ghost arts = reg.artifacts@;
    let ghost mv = opt_module(module);
    let mut n: usize = 0;
    let mut i: usize = 0;
    assert(arts.take(0) =~= Seq::<SupportArtifact>::empty());
    assert(base + artifact_rows(ev@, mv, arts.take(0)) =~= base);
    while i < reg.artifacts.len()
        invariant
            arts == reg.artifacts@,
            mv == opt_module(module),
            i <= arts.len(),
            n <= i,
            n as nat == artifacts_in_scope(mv, arts.take(i as int)),
            rows@.len() == items@.len(),
            forall|k: int| 0 <= k < items@.len() ==> row_item(#[trigger] items@[k]@, row_views(rows@)[k]),
            row_views(rows@) == base + artifact_rows(ev@, mv, arts.take(i as int)),
        decreases arts.len() - i,
    {
        let a = &reg.artifacts[i];
        proof {
            assert(arts.take(i + 1).drop_last() =~= arts.take(i as int));
            assert(arts.take(i + 1).last() == *a);
        }
        if scoped(module, a.symbol.as_str()) {
            n = n + 1;
            let (present, over) = evidence_of(ev, a.path.as_str());
            let drift: Option<&'static str> = if over {
                None
            } else {
                match &a.digest {
                    None => match present {
                        Some(_) => None,
                        None => Some("artifact-missing"),
                    },
                    Some(d) => match present {
                        Some(x) => if str_eq(x, d.as_str()) { None } else { Some("content-stale") },
                        None => Some("artifact-missing"),
                    },
                }
            };
            match drift {
                Some(detail) => {
                    let ghost prev = row_views(rows@);
                    push_row(rows, items, a.path.as_str(), detail);
                    assert(base + artifact_rows(ev@, mv, arts.take(i + 1)) =~= prev.push((a.path@, detail@)));
                },
                None => {},
            }
        }
        i = i + 1;
    }
    assert(arts.take(arts.len() as int) =~= arts);
    n
}

/// One drift row of a receipt.
#[derive(Clone, Debug, PartialEq, Eq)]
pub struct DriftRow {
    pub subject: String,
    pub detail: &'static str,
}

/// The receipt of a clean check.
#[derive(Clone, Debug, PartialEq, Eq)]
pub struct CheckReceipt {
    pub status: &'static str,
    pub operation: &'static str,
    pub mode: &'static str,
    /// The checked module, when the check was scoped to one.
    pub module: Option<String>,
    pub symbols: usize,
    pub conformant: usize,
    pub stale: usize,
    pub unknown: usize,
    pub artifacts: usize,
    pub stale_artifacts: usize,
    /// The drift rows (none on a clean receipt).
    pub drifts: Vec<DriftRow>,
}

/// The failed check's set: the registered items of the drift rows, one
/// per row, normalized into one result set; when the rows are more than
/// a result set may hold, the registry-invalid set.
pub open spec fn drift_set(set: Seq<DiagnosticView>, rows: Seq<(Seq<char>, Seq<char>)>) -> bool {
    exists|u: Seq<DiagnosticView>| #[trigger] items_of_rows(u, rows) && if rows.len() <= crate::diagnostics::normalize::DIAGNOSTICS_PER_RESULT {
        crate::diagnostics::normalize::normalized_set(u, set)
    } else {
        crate::diagnostics::set::singleton_view("diagnostics.registry-invalid"@, set)
    }
}

/// `u` holds the item of each row, row by row.
pub open spec fn items_of_rows(u: Seq<DiagnosticView>, rows: Seq<(Seq<char>, Seq<char>)>) -> bool {
    u.len() == rows.len() && forall|k: int| 0 <= k < u.len() ==> #[trigger] row_item(u[k], rows[k])
}

/// Every drift item's rule is registered, active, and allowed under
/// `invalid`.
proof fn lemma_row_item_allowed(d: DiagnosticView, row: (Seq<char>, Seq<char>))
    requires
        row_item(d, row),
    ensures
        find_rule(rule_table(), d.id) matches Some(x) && x.lifecycle == Lifecycle::Active
            && x.statuses.contains(Status::Invalid),
{
    crate::diagnostics::registry::lemma_found_contracted_binding_drift();
    crate::diagnostics::registry::lemma_found_contracted_stale_artifact();
    crate::diagnostics::registry::lemma_found_contracted_coverage_missing();
    assert(crate::diagnostics::registry::rule_contracted_binding_drift().statuses[0] == Status::Invalid);
    assert(crate::diagnostics::registry::rule_contracted_stale_artifact().statuses[0] == Status::Invalid);
    assert(crate::diagnostics::registry::rule_contracted_coverage_missing().statuses[0] == Status::Invalid);
}

/// What a check gives: the unknown-module refusal for a module the
/// project does not declare, the drift set when any row drifts, else
/// the clean receipt with the counts over the scope.
pub open spec fn check_outcome(f: ProjectFacts, ms: Seq<CanonicalMembers>, reg: ConformedRegistry, ev: Seq<FileEvidence>,
    module: Option<Seq<char>>, r: Result<CheckReceipt, DiagnosticSet>) -> bool {
    let rows = check_rows(f, ms, reg, ev, module);
    let c = symbol_counts(f, ev, module, reg.symbols@);
    if module is Some && !super::update::texts(f.modules@).contains(module.unwrap()) {
        r matches Err(e) && token_set(e@, "contracted.unknown-module"@, None, "module"@, module.unwrap())
    } else if rows.len() > 0 {
        r matches Err(e) && drift_set(e@, rows)
    } else {
        r matches Ok(x) && {
            &&& x.status@ == "valid"@ && x.operation@ == "conform"@ && x.mode@ == "check"@
            &&& opt_module_text(x.module) == module
            &&& x.symbols == c.0 && x.conformant == c.1 && x.stale == c.2 && x.unknown == c.3
            &&& x.artifacts == artifacts_in_scope(module, reg.artifacts@)
            &&& x.stale_artifacts == 0
            &&& x.drifts@.len() == 0
        }
    }
}

/// The view of an optional owned module.
pub open spec fn opt_module_text(m: Option<String>) -> Option<Seq<char>> {
    match m {
        Some(x) => Some(x@),
        None => None,
    }
}

fn module_declared(modules: &Vec<String>, m: &str) -> (r: bool)
    ensures
        r == super::update::texts(modules@).contains(m@),
{
    let mut i: usize = 0;
    while i < modules.len()
        invariant
            i <= modules@.len(),
            forall|j: int| 0 <= j < i ==> #[trigger] modules@[j]@ != m@,
        decreases modules@.len() - i,
    {
        if str_eq(modules[i].as_str(), m) {
            assert(super::update::texts(modules@)[i as int] == m@);
            return true;
        }
        i = i + 1;
    }
    proof {
        if super::update::texts(modules@).contains(m@) {
            let j = choose|j: int| 0 <= j < modules@.len() && super::update::texts(modules@)[j] == m@;
            assert(modules@[j]@ == m@);
        }
    }
    false
}

/// Run the conformance check over one registry, optionally scoped to
/// one module: every recorded binding in scope is held against the
/// canonical project (existence and kind), the fingerprint of its
/// maintained source, its native coverage, and its canonical signature
/// and effects; a scoped check also refuses unbound canonical
/// operations of the module; every support artifact in scope is held
/// against its current bytes. Any drift fails the check with one
/// registered item per drift.
pub fn check_registry(facts: &ProjectFacts, members: &Vec<CanonicalMembers>, registry: &ConformedRegistry,
    module: Option<&str>, evidence: &Vec<FileEvidence>) -> (r: Result<CheckReceipt, DiagnosticSet>)
    ensures
        check_outcome(*facts, members@, *registry, evidence@, opt_module(module), r),
{
    match module {
        Some(m) => if !module_declared(&facts.modules, m) {
            return Err(super::diagnostic::unknown_module_set(m));
        },
        None => {},
    }
    let mut rows: Vec<(String, &'static str)> = Vec::new();
    let mut items: Vec<Diagnostic> = Vec::new();
    assert(row_views(rows@) =~= Seq::<(Seq<char>, Seq<char>)>::empty());
    let counts = scan_symbols(facts, members, registry, evidence, module, &mut rows, &mut items);
    scan_unimplemented(facts, registry, module, &mut rows, &mut items);
    let artifacts = scan_artifacts(registry, evidence, module, &mut rows, &mut items);
    let ghost rv = row_views(rows@);
    assert(rv =~= check_rows(*facts, members@, *registry, evidence@, opt_module(module)));
    if rows.len() > 0 {
        let ghost uv = crate::diagnostics::set::views(items@);
        proof {
            assert(items_of_rows(uv, rv));
            assert forall|k: int| 0 <= k < uv.len() implies {
                let x = find_rule(rule_table(), #[trigger] uv[k].id);
                x is Some && x.unwrap().lifecycle == Lifecycle::Active && x.unwrap().statuses.contains(Status::Invalid)
            } by {
                lemma_row_item_allowed(uv[k], rv[k]);
            }
            assert(DiagnosticSet::all_allowed(uv, Status::Invalid));
        }
        return match DiagnosticSet::try_from_unsorted(items, Status::Invalid) {
            Ok(set) => Err(set),
            Err(_) => Err(crate::diagnostics::set::singleton_set("diagnostics.registry-invalid")),
        };
    }
    proof {
        reveal_strlit("valid");
        reveal_strlit("conform");
        reveal_strlit("check");
    }
    let module_text = match module {
        Some(m) => Some(m.to_owned()),
        None => None,
    };
    Ok(CheckReceipt {
        status: "valid",
        operation: "conform",
        mode: "check",
        module: module_text,
        symbols: counts.0,
        conformant: counts.1,
        stale: counts.2,
        unknown: counts.3,
        artifacts,
        stale_artifacts: 0,
        drifts: Vec::new(),
    })
}

proof fn lemma_record_coverage_detail(f: ProjectFacts, ms: Seq<CanonicalMembers>, arts: Seq<SupportArtifact>,
    ev: Seq<FileEvidence>, r: ConformedSymbol)
    requires
        kind_known(f, r),
        r.kind == SymbolKind::Command || r.kind == SymbolKind::Query,
        r.native_tests@.len() == 0,
        !has_skeleton(arts, r.id@),
    ensures
        record_details(f, ms, arts, ev, r).contains("coverage-missing"@),
{
    let d = record_details(f, ms, arts, ev, r);
    let at: int = if fingerprint_drift(ev, r) is Some { 1 } else { 0 };
    assert(d[at] == "coverage-missing"@);
}

proof fn lemma_symbol_rows_coverage(f: ProjectFacts, ms: Seq<CanonicalMembers>, reg: ConformedRegistry,
    ev: Seq<FileEvidence>, module: Option<Seq<char>>, recs: Seq<ConformedSymbol>, i: int)
    requires
        0 <= i < recs.len(),
        in_scope(module, recs[i].id@),
        kind_known(f, recs[i]),
        recs[i].kind == SymbolKind::Command || recs[i].kind == SymbolKind::Query,
        recs[i].native_tests@.len() == 0,
        !has_skeleton(reg.artifacts@, recs[i].id@),
    ensures
        symbol_rows(f, ms, reg, ev, module, recs).contains((recs[i].id@, "coverage-missing"@)),
    decreases recs.len(),
{
    let target = (recs[i].id@, "coverage-missing"@);
    let prev = symbol_rows(f, ms, reg, ev, module, recs.drop_last());
    let all = symbol_rows(f, ms, reg, ev, module, recs);
    let last = recs.last();
    if i == recs.len() - 1 {
        let d = record_details(f, ms, reg.artifacts@, ev, last);
        lemma_record_coverage_detail(f, ms, reg.artifacts@, ev, last);
        let j = choose|j: int| 0 <= j < d.len() && d[j] == "coverage-missing"@;
        assert(rows_of(last.id@, d)[j] == target);
        assert(all == prev + rows_of(last.id@, d));
        assert(all[prev.len() + j] == target);
    } else {
        assert(recs.drop_last()[i] == recs[i]);
        lemma_symbol_rows_coverage(f, ms, reg, ev, module, recs.drop_last(), i);
        let j = choose|j: int| 0 <= j < prev.len() && prev[j] == target;
        if in_scope(module, last.id@) {
            let d = record_details(f, ms, reg.artifacts@, ev, last);
            assert(all == prev + rows_of(last.id@, d));
            assert(all[j] == target);
        } else {
            assert(all == prev);
        }
    }
}

/// Every recorded command or query in scope whose kind matches the
/// model and that has neither a native test nor a test-skeleton artifact
/// yields a coverage-missing drift row, so the check of a declared scope
/// fails.
pub proof fn lemma_uncovered_operation_fails_check(f: ProjectFacts, ms: Seq<CanonicalMembers>, reg: ConformedRegistry,
    ev: Seq<FileEvidence>, module: Option<Seq<char>>, r: Result<CheckReceipt, DiagnosticSet>, i: int)
    requires
        0 <= i < reg.symbols@.len(),
        in_scope(module, reg.symbols@[i].id@),
        kind_known(f, reg.symbols@[i]),
        reg.symbols@[i].kind == SymbolKind::Command || reg.symbols@[i].kind == SymbolKind::Query,
        reg.symbols@[i].native_tests@.len() == 0,
        !has_skeleton(reg.artifacts@, reg.symbols@[i].id@),
    ensures
        check_rows(f, ms, reg, ev, module).contains((reg.symbols@[i].id@, "coverage-missing"@)),
        check_outcome(f, ms, reg, ev, module, r) ==> r is Err,
{
    let target = (reg.symbols@[i].id@, "coverage-missing"@);
    let sr = symbol_rows(f, ms, reg, ev, module, reg.symbols@);
    lemma_symbol_rows_coverage(f, ms, reg, ev, module, reg.symbols@, i);
    let j = choose|j: int| 0 <= j < sr.len() && sr[j] == target;
    let rows = check_rows(f, ms, reg, ev, module);
    assert(rows[j] == target);
}

} // verus!
