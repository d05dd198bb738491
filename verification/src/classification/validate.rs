//! Validation of one classification pair against the bound project:
//! custody binds the attachment and policy to the exact project, Model
//! pin, and IR pin; subject resolution rejects unknown symbols and
//! unaddressable members; the policy and grant coherence checks encode
//! the hard rules: every resolved kind has a policy row, grants are
//! strict lowerings through declared roles, `credential` never
//! declassifies, and approvals are never self-referential.

use vstd::prelude::*;
use vstd::string::StringExecFns;
use crate::text::{str_eq, str_lt, text_lt};
use crate::json::{JsonValue, rendered_json, tree, render_json, text_of, member, member_count, is_object};
use crate::diagnostics::set::DiagnosticSet;
use crate::diagnostics::item::DiagnosticView;
use super::diagnostic::classification_set;
use super::policy::{PolicyAttachment, PolicyView, KindRuleView, rule_of};
use super::resolve::{Resolution, ResolutionView, ResolvedKind, kind_lookup, resolved};
use super::types::{DataKind, Profile, SubjectPath, subject_head};
use super::wire::{Attachment, AttachmentView, ClassificationView, DeclassificationView, text_member};

verus! {

/// Why one subject does not resolve in the bound project.
#[derive(Clone, Copy, Debug, PartialEq, Eq, Structural)]
pub enum SubjectError {
    /// The head semantic id does not resolve.
    UnknownSymbol,
    /// A field path segment does not exist on the resolved definition.
    UnknownField,
}

/// The contract-level content of one finding row.
pub struct FindingRowView {
    pub rule: Seq<char>,
    pub subject: Seq<char>,
}

/// One validation finding: the registered rule id and the subject
/// reference; metadata only, never a value.
#[derive(Debug)]
pub struct FindingRow {
    /// The registered rule id (`classification.*`).
    pub rule: String,
    /// The subject reference (a bounded path string).
    pub subject: String,
}

impl Clone for FindingRow {
    fn clone(&self) -> (r: FindingRow)
        ensures
            r@ == self@,
    {
        FindingRow { rule: self.rule.clone(), subject: self.subject.clone() }
    }
}

impl View for FindingRow {
    type V = FindingRowView;

    open spec fn view(&self) -> FindingRowView {
        FindingRowView { rule: self.rule@, subject: self.subject@ }
    }
}

/// The canonical wire object of a finding row.
pub open spec fn row_wire(v: JsonValue, r: FindingRowView) -> bool {
    &&& is_object(v)
    &&& member_count(v) == 2
    &&& text_member(v, "rule"@) == Some(r.rule)
    &&& text_member(v, "subject"@) == Some(r.subject)
}

impl FindingRow {
    /// One row of a rule and a subject.
    pub fn new(rule: &str, subject: &str) -> (r: FindingRow)
        ensures
            r@ == (FindingRowView { rule: rule@, subject: subject@ }),
    {
        FindingRow { rule: rule.to_owned(), subject: subject.to_owned() }
    }

    /// The canonical wire object.
    pub fn to_wire(&self) -> (r: JsonValue)
        ensures
            row_wire(r, self@),
    {
        let fields: Vec<(String, JsonValue)> = vec![
            ("rule".to_owned(), JsonValue::Text(self.rule.clone())),
            ("subject".to_owned(), JsonValue::Text(self.subject.clone())),
        ];
        proof {
            reveal_strlit("rule");
            reveal_strlit("subject");
            assert("rule"@.len() != "subject"@.len());
            crate::json::lemma_lookup_at(fields@, 0);
            crate::json::lemma_lookup_at(fields@, 1);
        }
        JsonValue::Object(fields)
    }
}

/// The views of a list of rows.
pub open spec fn row_views(rows: Seq<FindingRow>) -> Seq<FindingRowView> {
    rows.map_values(|r: FindingRow| r@)
}

/// The contract-level content of a validation outcome.
pub struct ValidationOutcomeView {
    pub invalid: bool,
    pub rows: Seq<FindingRowView>,
}

/// The aggregate outcome of the policy and grant validation.
#[derive(Debug)]
pub struct ValidationOutcome {
    /// Whether any error-severity finding exists.
    pub invalid: bool,
    /// The findings in canonical order.
    pub rows: Vec<FindingRow>,
}

impl View for ValidationOutcome {
    type V = ValidationOutcomeView;

    open spec fn view(&self) -> ValidationOutcomeView {
        ValidationOutcomeView { invalid: self.invalid, rows: row_views(self.rows@) }
    }
}

/// The rendered text of each wire value.
pub open spec fn rendered_all(wires: Seq<JsonValue>) -> Seq<Seq<char>> {
    wires.map_values(|w: JsonValue| rendered_json(tree(w)))
}

/// Whether `wires` are the canonical wire objects of `rows`, in order.
pub open spec fn rows_rendered(rows: Seq<FindingRow>, wires: Seq<JsonValue>) -> bool {
    &&& wires.len() == rows.len()
    &&& forall|k: int| 0 <= k < wires.len() ==> #[trigger] row_wire(wires[k], rows[k]@)
}

/// The findings array fragment of the rendered rows: `,"findings":[`,
/// the rows' compact JSON separated by commas, then `]`.
pub open spec fn findings_fragment(rendered: Seq<Seq<char>>) -> Seq<char>
    decreases rendered.len(),
{
    if rendered.len() == 0 {
        ",\"findings\":["@ + "]"@
    } else if rendered.len() == 1 {
        ",\"findings\":["@ + rendered[0] + "]"@
    } else {
        let prev = findings_fragment(rendered.drop_last());
        prev.subrange(0, prev.len() - 1) + ","@ + rendered.last() + "]"@
    }
}

impl ValidationOutcome {
    /// The number of findings.
    pub fn finding_count(&self) -> (r: usize)
        ensures
            r == self@.rows.len(),
    {
        self.rows.len()
    }

    /// The canonical findings array fragment: each row rendered as its
    /// compact JSON object, in order.
    pub fn wire_findings(&self) -> (r: String)
        ensures
            exists|wires: Seq<JsonValue>| rows_rendered(self.rows@, wires) && r@ == findings_fragment(#[trigger] rendered_all(wires)),
    {
        proof {
            reveal_strlit(",\"findings\":[");
            reveal_strlit("]");
            reveal_strlit(",");
        }
        let ghost mut wires: Seq<JsonValue> = Seq::empty();
        let mut out = String::new();
        out.append(",\"findings\":[");
        let mut i: usize = 0;
        while i < self.rows.len()
            invariant
                i <= self.rows@.len(),
                wires.len() == i,
                forall|k: int| 0 <= k < i ==> #[trigger] row_wire(wires[k], self.rows@[k]@),
                out@ + "]"@ == findings_fragment(rendered_all(wires)),
            decreases self.rows@.len() - i,
        {
            let w = self.rows[i].to_wire();
            let text = render_json(&w);
            let ghost before = out@;
            if i > 0 {
                out.append(",");
            }
            out.append(text.as_str());
            proof {
                reveal_strlit(",\"findings\":[");
                reveal_strlit("]");
                reveal_strlit(",");
                let old_wires = wires;
                wires = wires.push(w);
                let rs = rendered_all(wires);
                assert(rs.drop_last() =~= rendered_all(old_wires));
                assert(rs.last() == rendered_json(tree(w)));
                if i == 0 {
                    let head = ",\"findings\":["@;
                    assert(rendered_all(old_wires) =~= Seq::<Seq<char>>::empty());
                    let close = "]"@;
                    assert(close.len() == 1);
                    assert(before + close == head + close);
                    assert((before + close).len() == before.len() + 1);
                    assert((head + close).len() == head.len() + 1);
                    assert(before.len() == head.len());
                    assert(before =~= (before + "]"@).subrange(0, before.len() as int));
                    assert(head =~= (head + "]"@).subrange(0, head.len() as int));
                    assert(before =~= head);
                    assert(out@ + "]"@ =~= findings_fragment(rs));
                } else {
                    let prev = findings_fragment(rs.drop_last());
                    assert(prev.subrange(0, prev.len() - 1) =~= before);
                    assert(out@ + "]"@ =~= findings_fragment(rs));
                }
            }
            i = i + 1;
        }
        out.append("]");
        out
    }
}

// ---------------------------------------------------------------------
// Policy and grant coherence

/// The fixed validation as-of date: the surfaces stay deterministic
/// functions of their bytes, with no wall-clock input.
pub const DEFAULT_AS_OF: &'static str = "2026-01-01T00:00:00Z";

/// One row of a rule and a subject.
pub open spec fn row(rule: Seq<char>, subject: Seq<char>) -> FindingRowView {
    FindingRowView { rule, subject }
}

/// The kind-rule-missing rows of the classification entries, in order:
/// an entry whose subject resolves to a kind without a policy row.
pub open spec fn coverage_rows(res: ResolutionView, policy: PolicyView, cs: Seq<ClassificationView>) -> Seq<FindingRowView>
    decreases cs.len(),
{
    if cs.len() == 0 {
        Seq::empty()
    } else {
        let prev = coverage_rows(res, policy, cs.drop_last());
        match resolved(res, cs.last().subject) {
            ResolvedKind::Classified(k) => if rule_of(policy.kinds, k) is None {
                prev.push(row("classification.kind-rule-missing"@, cs.last().subject))
            } else {
                prev
            },
            ResolvedKind::Unclassified => prev,
        }
    }
}

/// Why one grant is refused outright, as a detail tag: a sealed
/// credential, the same kind, or no strict lowering.
pub open spec fn grant_refusal(g: DeclassificationView) -> Option<Seq<char>> {
    if g.from_kind == DataKind::Credential {
        Some("credential-sealed"@)
    } else if g.to_kind == g.from_kind {
        Some("same-kind"@)
    } else if !g.to_kind.spec_strict_lowering_of(g.from_kind) {
        Some("not-a-lowering"@)
    } else {
        None
    }
}

/// The rows of one accepted grant: a missing policy row, a row without
/// declassification roles, or else expiry against `as_of` and
/// self-approval.
pub open spec fn grant_rows(policy: PolicyView, g: DeclassificationView, as_of: Seq<char>) -> Seq<FindingRowView> {
    match rule_of(policy.kinds, g.from_kind) {
        None => seq![row("classification.kind-rule-missing"@, g.subject)],
        Some(rule) => if rule.declassify_roles.len() == 0 {
            seq![row("classification.missing-approval"@, g.subject)]
        } else {
            let expired = if g.expires_at is Some && text_lt(g.expires_at.unwrap(), as_of) {
                seq![row("classification.expired-declassification"@, g.subject)]
            } else {
                Seq::empty()
            };
            let own = if g.approved_by == g.id {
                seq![row("classification.self-approved"@, g.subject)]
            } else {
                Seq::empty()
            };
            expired + own
        },
    }
}

/// The grant pass over the grants, in order: the first refused grant
/// as `(detail, subject)`, or the rows of every grant.
pub open spec fn grants_pass(policy: PolicyView, gs: Seq<DeclassificationView>, as_of: Seq<char>)
    -> Result<Seq<FindingRowView>, (Seq<char>, Seq<char>)>
    decreases gs.len(),
{
    if gs.len() == 0 {
        Ok(Seq::empty())
    } else {
        match grants_pass(policy, gs.drop_last(), as_of) {
            Err(e) => Err(e),
            Ok(prev) => match grant_refusal(gs.last()) {
                Some(d) => Err((d, gs.last().subject)),
                None => Ok(prev + grant_rows(policy, gs.last(), as_of)),
            },
        }
    }
}

fn coverage_pass(
    resolution: &Resolution,
    policy: &PolicyAttachment,
    classifications: &[super::wire::Classification],
    rows: &mut Vec<FindingRow>,
)
    ensures
        row_views(final(rows)@) == row_views(old(rows)@)
            + coverage_rows(resolution@, policy@, super::wire::classification_views(classifications@)),
{
    let ghost cv = super::wire::classification_views(classifications@);
    let ghost rows0 = row_views(rows@);
    let mut i: usize = 0;
    assert(cv.subrange(0, 0) =~= Seq::<ClassificationView>::empty());
    assert(rows0 + Seq::<FindingRowView>::empty() =~= rows0);
    while i < classifications.len()
        invariant
            i <= classifications@.len(),
            cv == super::wire::classification_views(classifications@),
            row_views(rows@) == rows0 + coverage_rows(resolution@, policy@, cv.subrange(0, i as int)),
        decreases classifications@.len() - i,
    {
        let entry = &classifications[i];
        proof {
            assert(cv.subrange(0, i + 1).drop_last() =~= cv.subrange(0, i as int));
            assert(cv.subrange(0, i + 1).last() == entry@);
        }
        let ghost before = row_views(rows@);
        match resolution.resolve(entry.subject()) {
            ResolvedKind::Classified(kind) => {
                if policy.rule(kind).is_none() {
                    rows.push(FindingRow::new("classification.kind-rule-missing", entry.subject().as_str()));
                    assert(row_views(rows@) =~= before.push(row("classification.kind-rule-missing"@, entry@.subject)));
                }
            },
            ResolvedKind::Unclassified => {},
        }
        i = i + 1;
    }
    assert(cv.subrange(0, classifications@.len() as int) =~= cv);
}

/// A refusal in a prefix of the grants is the refusal of the whole
/// list.
proof fn lemma_pass_err_extends(policy: PolicyView, gs: Seq<DeclassificationView>, n: int, as_of: Seq<char>)
    requires
        0 <= n <= gs.len(),
        grants_pass(policy, gs.subrange(0, n), as_of) is Err,
    ensures
        grants_pass(policy, gs, as_of) == grants_pass(policy, gs.subrange(0, n), as_of),
    decreases gs.len() - n,
{
    if n < gs.len() {
        let next = gs.subrange(0, n + 1);
        assert(next.drop_last() =~= gs.subrange(0, n));
        lemma_pass_err_extends(policy, gs, n + 1, as_of);
    } else {
        assert(gs.subrange(0, n) =~= gs);
    }
}

fn grant_pass(
    policy: &PolicyAttachment,
    grants: &[super::wire::Declassification],
    as_of: &str,
    rows: &mut Vec<FindingRow>,
) -> (r: Result<(), DiagnosticSet>)
    ensures
        match grants_pass(policy@, super::wire::grant_views(grants@), as_of@) {
            Err((d, s)) => r matches Err(set) && classification_set(set@, "classification.invalid-declassification"@, d, Some(s)),
            Ok(g) => r is Ok && row_views(final(rows)@) == row_views(old(rows)@) + g,
        },
{
    let ghost gv = super::wire::grant_views(grants@);
    let ghost rows0 = row_views(rows@);
    let mut i: usize = 0;
    assert(gv.subrange(0, 0) =~= Seq::<DeclassificationView>::empty());
    assert(rows0 + Seq::<FindingRowView>::empty() =~= rows0);
    while i < grants.len()
        invariant
            i <= grants@.len(),
            gv == super::wire::grant_views(grants@),
            grants_pass(policy@, gv.subrange(0, i as int), as_of@) is Ok,
            row_views(rows@) == rows0 + grants_pass(policy@, gv.subrange(0, i as int), as_of@)->Ok_0,
        decreases grants@.len() - i,
    {
        let g = &grants[i];
        let ghost pre = gv.subrange(0, i as int);
        proof {
            assert(gv.subrange(0, i + 1).drop_last() =~= pre);
            assert(gv.subrange(0, i + 1).last() == g@);
        }
        let subject = g.subject().as_str();
        if !g.from_kind().declassifiable() {
            proof {
                reveal_strlit("credential-sealed");
                lemma_pass_err_extends(policy@, gv, i + 1, as_of@);
            }
            return Err(super::diagnostic::invalid_declassification("credential-sealed", subject));
        }
        if g.to_kind() == g.from_kind() {
            proof {
                reveal_strlit("same-kind");
                lemma_pass_err_extends(policy@, gv, i + 1, as_of@);
            }
            return Err(super::diagnostic::invalid_declassification("same-kind", subject));
        }
        if !g.to_kind().strict_lowering_of(g.from_kind()) {
            proof {
                reveal_strlit("not-a-lowering");
                lemma_pass_err_extends(policy@, gv, i + 1, as_of@);
            }
            return Err(super::diagnostic::invalid_declassification("not-a-lowering", subject));
        }
        let ghost before = row_views(rows@);
        match policy.rule(g.from_kind()) {
            None => {
                rows.push(FindingRow::new("classification.kind-rule-missing", subject));
                assert(row_views(rows@) =~= before + grant_rows(policy@, g@, as_of@));
            },
            Some(rule) => {
                let roles = rule.declassify_roles();
                if roles.len() == 0 {
                    rows.push(FindingRow::new("classification.missing-approval", subject));
                    assert(row_views(rows@) =~= before + grant_rows(policy@, g@, as_of@));
                } else {
                    assert(rule@.declassify_roles.len() == roles@.len());
                    let expired = match g.expires_at() {
                        Some(t) => str_lt(t.as_str(), as_of),
                        None => false,
                    };
                    if expired {
                        rows.push(FindingRow::new("classification.expired-declassification", subject));
                    }
                    let ghost mid = row_views(rows@);
                    if str_eq(g.approved_by().as_str(), g.id().as_str()) {
                        rows.push(FindingRow::new("classification.self-approved", subject));
                    }
                    proof {
                        let rs = row_views(rows@);
                        assert(mid =~= before + mid.subrange(before.len() as int, mid.len() as int));
                        assert(rs =~= mid + rs.subrange(mid.len() as int, rs.len() as int));
                        assert(rs =~= before + grant_rows(policy@, g@, as_of@));
                    }
                }
            },
        }
        i = i + 1;
    }
    assert(gv.subrange(0, grants@.len() as int) =~= gv);
    Ok(())
}

impl crate::sorting::Ordered for SubjectPath {
    open spec fn spec_le(&self, other: &Self) -> bool {
        crate::text::text_le(self@, other@)
    }

    proof fn lemma_total(a: &Self, b: &Self) {
        crate::text::lemma_text_le_order(a@, b@, a@);
    }

    proof fn lemma_transitive(a: &Self, b: &Self, c: &Self) {
        crate::text::lemma_text_le_order(a@, b@, c@);
    }

    fn le(&self, other: &Self) -> (r: bool) {
        !str_lt(other.as_str(), self.as_str())
    }
}

// ---------------------------------------------------------------------
// The bound project

/// The definition kinds the validation distinguishes.
#[derive(Clone, Copy, Debug, PartialEq, Eq, Structural)]
pub enum DefinitionKind {
    Entity,
    ValueObject,
    Command,
    Event,
    Query,
    Effect,
    Other,
}

/// One definition of the bound project as the validation reads it.
#[derive(Debug)]
pub struct ProjectDefinition {
    /// The definition semantic id.
    pub id: String,
    /// The closed definition kind.
    pub kind: DefinitionKind,
    /// Each addressable member (entity and value-object fields, command
    /// input, event payload) with the definition it references.
    pub members: Vec<(String, String)>,
    /// The entities a query reads.
    pub reads: Vec<String>,
    /// The effects a command declares.
    pub effects: Vec<String>,
    /// The entity an effect writes.
    pub entity: String,
    /// The events an effect emits.
    pub emits: Vec<String>,
}

/// The bound project: its declared identity, Model version, canonical
/// IR bytes, and definitions.
#[derive(Debug)]
pub struct BoundProject {
    /// The declared project id, if the Model declares a project.
    pub project_id: Option<String>,
    /// The Model version the compilation came from.
    pub model_version: String,
    /// The canonical IR JSON of the compilation.
    pub ir_canonical_json: String,
    /// Every definition, in declaration order.
    pub definitions: Vec<ProjectDefinition>,
}

/// The texts of a list of strings.
pub open spec fn texts(s: Seq<String>) -> Seq<Seq<char>> {
    s.map_values(|t: String| t@)
}

/// The index of the first effect definition named `id`, or the length.
pub open spec fn effect_index(defs: Seq<ProjectDefinition>, id: Seq<char>, from: int) -> int
    decreases defs.len() - from,
{
    if from >= defs.len() || from < 0 {
        defs.len() as int
    } else if defs[from].id@ == id && defs[from].kind == DefinitionKind::Effect {
        from
    } else {
        effect_index(defs, id, from + 1)
    }
}

/// The subjects one declared effect touches: its entity and the events
/// it emits, when the effect is defined.
pub open spec fn effect_subjects(defs: Seq<ProjectDefinition>, id: Seq<char>) -> Seq<Seq<char>> {
    let k = effect_index(defs, id, 0);
    if 0 <= k < defs.len() {
        seq![defs[k].entity@] + texts(defs[k].emits@)
    } else {
        Seq::empty()
    }
}

/// The subjects of a command's effects, in order.
pub open spec fn command_subjects(defs: Seq<ProjectDefinition>, effects: Seq<String>) -> Seq<Seq<char>>
    decreases effects.len(),
{
    if effects.len() == 0 {
        Seq::empty()
    } else {
        command_subjects(defs, effects.drop_last()) + effect_subjects(defs, effects.last()@)
    }
}

/// Every definition-level id the declared graph touches, in definition
/// order: the entities queries read, and the entities and events of the
/// effects commands declare.
pub open spec fn graph_ids(defs: Seq<ProjectDefinition>, upto: Seq<ProjectDefinition>) -> Seq<Seq<char>>
    decreases upto.len(),
{
    if upto.len() == 0 {
        Seq::empty()
    } else {
        let d = upto.last();
        graph_ids(defs, upto.drop_last()) + match d.kind {
            DefinitionKind::Query => texts(d.reads@),
            DefinitionKind::Command => command_subjects(defs, d.effects@),
            _ => Seq::empty(),
        }
    }
}

/// `ss` lists, strictly in byte order, exactly the candidates that are
/// subject paths.
pub open spec fn canonical_subjects(cands: Seq<Seq<char>>, ss: Seq<Seq<char>>) -> bool {
    &&& forall|a: int, b: int| 0 <= a < b < ss.len() ==> text_lt(#[trigger] ss[a], #[trigger] ss[b])
    &&& forall|k: int| 0 <= k < ss.len() ==> cands.contains(#[trigger] ss[k]) && super::types::subject_error(ss[k]) is None
    &&& forall|k: int| 0 <= k < cands.len() && super::types::subject_error(#[trigger] cands[k]) is None ==> ss.contains(cands[k])
}

/// The resolution built from an attachment.
pub open spec fn built_resolution(a: AttachmentView) -> ResolutionView {
    ResolutionView {
        defaults: a.defaults,
        exact: super::resolve::level_entries(a.classifications, true),
        definitions: super::resolve::level_entries(a.classifications, false),
        grants: a.declassifications,
    }
}

/// The strict-profile rows over the canonical subjects: a subject
/// without an exact or definition-level entry whose resolution is
/// sensitive (unclassified counts as sensitive).
pub open spec fn strict_rows(res: ResolutionView, ss: Seq<Seq<char>>) -> Seq<FindingRowView>
    decreases ss.len(),
{
    if ss.len() == 0 {
        Seq::empty()
    } else {
        let s = ss.last();
        let covered = kind_lookup(res.exact, s) is Some || kind_lookup(res.definitions, subject_head(s)) is Some;
        let sensitive = match resolved(res, s) {
            ResolvedKind::Classified(k) => k.spec_is_sensitive(),
            ResolvedKind::Unclassified => true,
        };
        strict_rows(res, ss.drop_last()) + if !covered && sensitive {
            seq![row("classification.unclassified-sensitive-sink"@, s)]
        } else {
            Seq::empty()
        }
    }
}

/// The strict-profile rows of an attachment over a project: none
/// outside the strict profile; otherwise the rows over the canonical
/// subjects of the declared graph.
pub open spec fn strict_rows_of(a: AttachmentView, defs: Seq<ProjectDefinition>, rows: Seq<FindingRowView>) -> bool {
    if a.defaults.0 != Profile::Strict {
        rows.len() == 0
    } else {
        exists|ss: Seq<Seq<char>>| canonical_subjects(graph_ids(defs, defs), ss) && rows == #[trigger] strict_rows(built_resolution(a), ss)
    }
}

fn find_effect(defs: &Vec<ProjectDefinition>, id: &str) -> (r: usize)
    ensures
        r == effect_index(defs@, id@, 0),
{
    let mut i: usize = 0;
    while i < defs.len()
        invariant
            i <= defs@.len(),
            effect_index(defs@, id@, 0) == effect_index(defs@, id@, i as int),
        decreases defs@.len() - i,
    {
        if str_eq(defs[i].id.as_str(), id) && defs[i].kind == DefinitionKind::Effect {
            return i;
        }
        i = i + 1;
    }
    i
}

fn push_texts(out: &mut Vec<String>, items: &Vec<String>)
    ensures
        texts(final(out)@) == texts(old(out)@) + texts(items@),
{
    let ghost start = texts(out@);
    let mut i: usize = 0;
    while i < items.len()
        invariant
            i <= items@.len(),
            texts(out@) == start + texts(items@.subrange(0, i as int)),
        decreases items@.len() - i,
    {
        let ghost before = texts(out@);
        out.push(items[i].clone());
        assert(texts(items@.subrange(0, i + 1)) =~= texts(items@.subrange(0, i as int)).push(items@[i as int]@));
        assert(texts(out@) =~= before.push(items@[i as int]@));
        i = i + 1;
    }
    assert(items@.subrange(0, items@.len() as int) =~= items@);
}

fn graph_candidates(defs: &Vec<ProjectDefinition>) -> (r: Vec<String>)
    ensures
        texts(r@) == graph_ids(defs@, defs@),
{
    let mut out: Vec<String> = Vec::new();
    let mut i: usize = 0;
    assert(defs@.subrange(0, 0) =~= Seq::<ProjectDefinition>::empty());
    while i < defs.len()
        invariant
            i <= defs@.len(),
            texts(out@) == graph_ids(defs@, defs@.subrange(0, i as int)),
        decreases defs@.len() - i,
    {
        let d = &defs[i];
        let ghost before = texts(out@);
        proof {
            assert(defs@.subrange(0, i + 1).drop_last() =~= defs@.subrange(0, i as int));
            assert(defs@.subrange(0, i + 1).last() == *d);
        }
        match d.kind {
            DefinitionKind::Query => push_texts(&mut out, &d.reads),
            DefinitionKind::Command => {
                let mut j: usize = 0;
                assert(d.effects@.subrange(0, 0) =~= Seq::<String>::empty());
                assert(before + Seq::<Seq<char>>::empty() =~= before);
                while j < d.effects.len()
                    invariant
                        j <= d.effects@.len(),
                        texts(out@) == before + command_subjects(defs@, d.effects@.subrange(0, j as int)),
                    decreases d.effects@.len() - j,
                {
                    let k = find_effect(defs, d.effects[j].as_str());
                    let ghost mid = texts(out@);
                    if k < defs.len() {
                        out.push(defs[k].entity.clone());
                        push_texts(&mut out, &defs[k].emits);
                        assert(texts(out@) =~= mid + effect_subjects(defs@, d.effects@[j as int]@));
                    } else {
                        assert(mid + effect_subjects(defs@, d.effects@[j as int]@) =~= mid);
                    }
                    proof {
                        assert(d.effects@.subrange(0, j + 1).drop_last() =~= d.effects@.subrange(0, j as int));
                        assert(d.effects@.subrange(0, j + 1).last() == d.effects@[j as int]);
                    }
                    j = j + 1;
                }
                assert(d.effects@.subrange(0, d.effects@.len() as int) =~= d.effects@);
            },
            _ => {
                assert(before + Seq::<Seq<char>>::empty() =~= before);
            },
        }
        i = i + 1;
    }
    assert(defs@.subrange(0, defs@.len() as int) =~= defs@);
    out
}

/// Every definition-level subject the declared graph touches, once
/// each, in byte order.
fn declared_graph_subjects(project: &BoundProject) -> (r: Vec<SubjectPath>)
    ensures
        canonical_subjects(graph_ids(project.definitions@, project.definitions@), r@.map_values(|s: SubjectPath| s@)),
{
    let cands = graph_candidates(&project.definitions);
    let ghost cv = texts(cands@);
    let mut parsed: Vec<SubjectPath> = Vec::new();
    let mut i: usize = 0;
    while i < cands.len()
        invariant
            i <= cands@.len(),
            cv == texts(cands@),
            forall|k: int| 0 <= k < parsed@.len() ==> cv.contains(#[trigger] parsed@[k]@)
                && super::types::subject_error(parsed@[k]@) is None,
            forall|k: int| 0 <= k < i && super::types::subject_error(#[trigger] cv[k]) is None
                ==> exists|m: int| 0 <= m < parsed@.len() && #[trigger] parsed@[m]@ == cv[k],
        decreases cands@.len() - i,
    {
        match SubjectPath::parse(cands[i].as_str()) {
            Ok(s) => {
                let ghost before = parsed@;
                assert(cv[i as int] == cands@[i as int]@);
                parsed.push(s);
                proof {
                    assert(parsed@[before.len() as int]@ == cv[i as int]);
                    assert forall|k: int| 0 <= k < i + 1 && super::types::subject_error(#[trigger] cv[k]) is None
                        implies exists|m: int| 0 <= m < parsed@.len() && #[trigger] parsed@[m]@ == cv[k] by {
                        if k < i {
                            let m = choose|m: int| 0 <= m < before.len() && #[trigger] before[m]@ == cv[k];
                            assert(parsed@[m] == before[m]);
                        } else {
                            assert(parsed@[before.len() as int]@ == cv[k]);
                        }
                    }
                    assert forall|k: int| 0 <= k < parsed@.len() implies cv.contains(#[trigger] parsed@[k]@)
                        && super::types::subject_error(parsed@[k]@) is None by {
                        if k < before.len() {
                            assert(parsed@[k] == before[k]);
                        }
                    }
                }
            },
            Err(_) => {
                assert(cv[i as int] == cands@[i as int]@);
            },
        }
        i = i + 1;
    }
    let ghost pv = parsed@;
    let r = crate::sorting::sort_dedup(parsed);
    proof {
        let rv = r@.map_values(|s: SubjectPath| s@);
        assert forall|a: int, b: int| 0 <= a < b < rv.len() implies text_lt(#[trigger] rv[a], #[trigger] rv[b]) by {
            crate::sorting::lemma_strictly_sorted_at(r@, a, b);
            crate::text::lemma_text_le_order(rv[a], rv[b], rv[a]);
            crate::text::lemma_text_lt_total(rv[a], rv[b]);
        }
        assert forall|k: int| 0 <= k < rv.len() implies cv.contains(#[trigger] rv[k]) && super::types::subject_error(rv[k]) is None by {
            assert(pv.contains(r@[k]));
            let m = choose|m: int| 0 <= m < pv.len() && pv[m] == r@[k];
            assert(cv.contains(pv[m]@));
        }
        assert forall|k: int| 0 <= k < cv.len() && super::types::subject_error(#[trigger] cv[k]) is None implies rv.contains(cv[k]) by {
            let m = choose|m: int| 0 <= m < pv.len() && #[trigger] pv[m]@ == cv[k];
            assert(crate::sorting::covered(r@, pv[m]));
            let a = choose|a: int| 0 <= a < r@.len() && #[trigger] crate::sorting::equivalent(r@[a], pv[m]);
            crate::text::lemma_text_le_order(r@[a]@, pv[m]@, r@[a]@);
            assert(rv[a] == cv[k]);
        }
    }
    r
}

/// The strict-profile sensitive-sink rule over the bound project: every
/// sensitive subject of the declared graph must be explicitly classified
/// (a definition-level or field-level entry); one whose kind comes only
/// from a profile default, or that does not resolve, is a finding.
pub fn strict_sensitive_sink_findings(attachment: &Attachment, project: &BoundProject) -> (r: Vec<FindingRow>)
    ensures
        strict_rows_of(attachment@, project.definitions@, row_views(r@)),
{
    let mut rows: Vec<FindingRow> = Vec::new();
    if attachment.defaults().profile() != Profile::Strict {
        return rows;
    }
    let resolution = Resolution::build(attachment);
    assert(resolution@ == built_resolution(attachment@));
    let subjects = declared_graph_subjects(project);
    let ghost ss = subjects@.map_values(|s: SubjectPath| s@);
    let mut i: usize = 0;
    assert(ss.subrange(0, 0) =~= Seq::<Seq<char>>::empty());
    while i < subjects.len()
        invariant
            i <= subjects@.len(),
            ss == subjects@.map_values(|s: SubjectPath| s@),
            resolution@ == built_resolution(attachment@),
            row_views(rows@) == strict_rows(resolution@, ss.subrange(0, i as int)),
        decreases subjects@.len() - i,
    {
        let subject = &subjects[i];
        proof {
            assert(ss.subrange(0, i + 1).drop_last() =~= ss.subrange(0, i as int));
            assert(ss.subrange(0, i + 1).last() == subject@);
        }
        let ghost before = row_views(rows@);
        let kind = resolution.resolve(subject);
        let covered = resolution.exact(subject).is_some() || resolution.definition_default(subject).is_some();
        if !covered && kind.is_sensitive() {
            rows.push(FindingRow::new("classification.unclassified-sensitive-sink", subject.as_str()));
            assert(row_views(rows@) =~= before.push(row("classification.unclassified-sensitive-sink"@, subject@)));
        } else {
            assert(before + Seq::<FindingRowView>::empty() =~= before);
        }
        i = i + 1;
    }
    assert(ss.subrange(0, subjects@.len() as int) =~= ss);
    rows
}

/// The policy and grant validation of one attachment: the coverage
/// rows, then the grant rows (or the first refused grant), then the
/// strict-profile rows; the outcome is invalid exactly when a row
/// exists.
pub open spec fn validation_matches(
    a: AttachmentView,
    policy: PolicyView,
    res: ResolutionView,
    defs: Seq<ProjectDefinition>,
    as_of: Seq<char>,
    o: ValidationOutcomeView,
) -> bool {
    let cov = coverage_rows(res, policy, a.classifications);
    let g = grants_pass(policy, a.declassifications, as_of)->Ok_0;
    &&& o.rows.len() >= cov.len() + g.len()
    &&& o.rows.subrange(0, cov.len() as int) == cov
    &&& o.rows.subrange(cov.len() as int, (cov.len() + g.len()) as int) == g
    &&& strict_rows_of(a, defs, o.rows.subrange((cov.len() + g.len()) as int, o.rows.len() as int))
    &&& o.invalid == (o.rows.len() > 0)
}

/// [`validate_policy_and_grants`] with an explicit evaluation date for
/// the grant-expiry rule.
pub fn validate_policy_and_grants_as_of(
    attachment: &Attachment,
    policy: &PolicyAttachment,
    resolution: &Resolution,
    project: &BoundProject,
    as_of: &str,
) -> (r: Result<ValidationOutcome, DiagnosticSet>)
    ensures
        match grants_pass(policy@, attachment@.declassifications, as_of@) {
            Err((d, s)) => r matches Err(set)
                && classification_set(set@, "classification.invalid-declassification"@, d, Some(s)),
            Ok(_) => r matches Ok(o) && validation_matches(attachment@, policy@, resolution@, project.definitions@, as_of@, o@),
        },
{
    let mut rows: Vec<FindingRow> = Vec::new();
    assert(row_views(rows@) =~= Seq::<FindingRowView>::empty());
    coverage_pass(resolution, policy, attachment.classifications(), &mut rows);
    let ghost cov = row_views(rows@);
    grant_pass(policy, attachment.declassifications(), as_of, &mut rows)?;
    let ghost cg = row_views(rows@);
    let strict = strict_sensitive_sink_findings(attachment, project);
    let ghost sv = row_views(strict@);
    let mut i: usize = 0;
    while i < strict.len()
        invariant
            i <= strict@.len(),
            sv == row_views(strict@),
            row_views(rows@) == cg + sv.subrange(0, i as int),
        decreases strict@.len() - i,
    {
        let ghost before = row_views(rows@);
        let item = strict[i].clone();
        rows.push(item);
        assert(sv[i as int] == strict@[i as int]@);
        assert(row_views(rows@) =~= before.push(sv[i as int]));
        assert(sv.subrange(0, i + 1) =~= sv.subrange(0, i as int).push(sv[i as int]));
        assert(row_views(rows@) =~= cg + sv.subrange(0, i + 1));
        i = i + 1;
    }
    let invalid = rows.len() > 0;
    let o = ValidationOutcome { invalid, rows };
    proof {
        let rv = o@.rows;
        assert(sv.subrange(0, sv.len() as int) =~= sv);
        let g = grants_pass(policy@, attachment@.declassifications, as_of@)->Ok_0;
        assert(cg == cov + g);
        assert(rv.subrange(0, cov.len() as int) =~= cov);
        assert(rv.subrange(cov.len() as int, (cov.len() + g.len()) as int) =~= g);
        assert(rv.subrange((cov.len() + g.len()) as int, rv.len() as int) =~= sv);
    }
    Ok(o)
}

/// Validate the policy and grant coherence of one resolved attachment
/// at the fixed as-of date.
pub fn validate_policy_and_grants(
    attachment: &Attachment,
    policy: &PolicyAttachment,
    resolution: &Resolution,
    project: &BoundProject,
) -> (r: Result<ValidationOutcome, DiagnosticSet>)
    ensures
        match grants_pass(policy@, attachment@.declassifications, DEFAULT_AS_OF@) {
            Err((d, s)) => r matches Err(set)
                && classification_set(set@, "classification.invalid-declassification"@, d, Some(s)),
            Ok(_) => r matches Ok(o)
                && validation_matches(attachment@, policy@, resolution@, project.definitions@, DEFAULT_AS_OF@, o@),
        },
{
    validate_policy_and_grants_as_of(attachment, policy, resolution, project, DEFAULT_AS_OF)
}

/// Whether the kind is sink-eligible for the given ceiling.
pub fn kind_within_ceiling(kind: DataKind, ceiling: DataKind) -> (r: bool)
    ensures
        r == (kind.spec_rank() <= ceiling.spec_rank()),
{
    kind.rank() <= ceiling.rank()
}

// ---------------------------------------------------------------------
// Custody

/// Why the pair does not bind the bound project, as a detail tag: the
/// project identity, the Model pin (version and digest of the exact
/// Model bytes), then the IR pin (digest of the canonical IR bytes).
pub open spec fn custody_error(
    a: AttachmentView,
    p: PolicyView,
    project_id: Option<Seq<char>>,
    model_version: Seq<char>,
    model_json: Seq<char>,
    ir_json: Seq<char>,
) -> Option<Seq<char>> {
    let model_digest = crate::digest::digest_text(vstd::utf8::encode_utf8(model_json));
    let ir_digest = crate::digest::digest_text(vstd::utf8::encode_utf8(ir_json));
    if project_id is None || a.project_id != project_id.unwrap() || p.project_id != project_id.unwrap() {
        Some("custody-project"@)
    } else if a.model_ref != (model_version, model_digest) || p.model_ref != (model_version, model_digest) {
        Some("custody-model"@)
    } else if a.ir_ref.1 != ir_digest || p.ir_ref.1 != ir_digest {
        Some("custody-ir"@)
    } else {
        None
    }
}

/// The dedicated refusal rule of a custody mismatch.
pub open spec fn custody_rule(detail: Seq<char>) -> Seq<char> {
    if detail == "custody-project"@ {
        "classification.custody-project"@
    } else if detail == "custody-model"@ {
        "classification.custody-model"@
    } else {
        "classification.custody-ir"@
    }
}

/// Bind the attachment and policy to the exact project custody: the
/// same project id, the same Model pin, and the same IR pin across the
/// two documents and the bound project. A stale or foreign attachment
/// is a refusal, never a pass.
pub fn validate_custody(
    attachment: &Attachment,
    policy: &PolicyAttachment,
    project: &BoundProject,
    model_json: &str,
) -> (r: Result<(), DiagnosticSet>)
    ensures
        match custody_error(attachment@, policy@, crate::diagnostics::item::opt_text(project.project_id),
            project.model_version@, model_json@, project.ir_canonical_json@) {
            Some(d) => r matches Err(set) && classification_set(set@, custody_rule(d), d, None),
            None => r is Ok,
        },
{
    proof {
        reveal_strlit("custody-project");
        reveal_strlit("custody-model");
        reveal_strlit("custody-ir");
    }
    let project_id = match &project.project_id {
        Some(id) => id.as_str(),
        None => return Err(super::diagnostic::custody_project("custody-project")),
    };
    if !str_eq(attachment.project_id().as_str(), project_id) || !str_eq(policy.project_id().as_str(), project_id) {
        return Err(super::diagnostic::custody_project("custody-project"));
    }
    let model_digest = crate::digest::sha256_digest(model_json.as_bytes());
    let version = project.model_version.as_str();
    let a_model = attachment.model_ref();
    let p_model = policy.model_ref();
    if !str_eq(a_model.0.as_str(), version) || !str_eq(a_model.1.as_str(), model_digest.as_str())
        || !str_eq(p_model.0.as_str(), version) || !str_eq(p_model.1.as_str(), model_digest.as_str()) {
        return Err(super::diagnostic::custody_model("custody-model"));
    }
    let ir_digest = crate::digest::sha256_digest(project.ir_canonical_json.as_str().as_bytes());
    if !str_eq(attachment.ir_ref().1.as_str(), ir_digest.as_str()) || !str_eq(policy.ir_ref().1.as_str(), ir_digest.as_str()) {
        return Err(super::diagnostic::custody_ir("custody-ir"));
    }
    Ok(())
}

// ---------------------------------------------------------------------
// Subject resolution

/// The index of the first definition named `id`, or the length.
pub open spec fn definition_index(defs: Seq<ProjectDefinition>, id: Seq<char>, from: int) -> int
    decreases defs.len() - from,
{
    if from >= defs.len() || from < 0 {
        defs.len() as int
    } else if defs[from].id@ == id {
        from
    } else {
        definition_index(defs, id, from + 1)
    }
}

/// The addressable members of a definition: fields of entities and
/// value objects, command input, and event payload; none otherwise.
pub open spec fn members_of(d: ProjectDefinition) -> Seq<(String, String)> {
    if d.kind == DefinitionKind::Entity || d.kind == DefinitionKind::ValueObject || d.kind == DefinitionKind::Command
        || d.kind == DefinitionKind::Event {
        d.members@
    } else {
        Seq::empty()
    }
}

/// The definition a member name references; a later member of the same
/// name wins.
pub open spec fn member_target(members: Seq<(String, String)>, name: Seq<char>) -> Option<Seq<char>>
    decreases members.len(),
{
    if members.len() == 0 {
        None
    } else if members.last().0@ == name {
        Some(members.last().1@)
    } else {
        member_target(members.drop_last(), name)
    }
}

/// The members of the definition named `id`, or none.
pub open spec fn members_named(defs: Seq<ProjectDefinition>, id: Seq<char>) -> Seq<(String, String)> {
    let k = definition_index(defs, id, 0);
    if 0 <= k < defs.len() { members_of(defs[k]) } else { Seq::empty() }
}

/// Why one subject does not resolve, as a detail tag: an unknown head
/// symbol, an unknown field, or an unknown payload field.
pub open spec fn subject_failure(defs: Seq<ProjectDefinition>, s: Seq<char>) -> Option<Seq<char>> {
    let k = definition_index(defs, subject_head(s), 0);
    let segs = super::types::subject_fields(s);
    if !(0 <= k < defs.len()) {
        Some("unknown-symbol"@)
    } else if segs.len() >= 1 && member_target(members_of(defs[k]), segs[0]) is None {
        Some("unknown-field"@)
    } else if segs.len() >= 2 && member_target(
        members_named(defs, member_target(members_of(defs[k]), segs[0]).unwrap()), segs[1]) is None {
        Some("unknown-payload-field"@)
    } else {
        None
    }
}

/// The first subject of the list that does not resolve, with its detail.
pub open spec fn first_failure(defs: Seq<ProjectDefinition>, ss: Seq<Seq<char>>) -> Option<(Seq<char>, Seq<char>)>
    decreases ss.len(),
{
    if ss.len() == 0 {
        None
    } else {
        match first_failure(defs, ss.drop_last()) {
            Some(e) => Some(e),
            None => match subject_failure(defs, ss.last()) {
                Some(d) => Some((d, ss.last())),
                None => None,
            },
        }
    }
}

/// The subjects an attachment declares, in the order they are checked:
/// classification entries, grants, then open questions with a subject.
pub open spec fn declared_subjects(a: AttachmentView) -> Seq<Seq<char>> {
    a.classifications.map_values(|c: ClassificationView| c.subject)
        + a.declassifications.map_values(|g: DeclassificationView| g.subject)
        + question_subjects(a.open_questions)
}

/// The subjects of the open questions that carry one.
pub open spec fn question_subjects(qs: Seq<super::wire::OpenQuestionView>) -> Seq<Seq<char>>
    decreases qs.len(),
{
    if qs.len() == 0 {
        Seq::empty()
    } else {
        question_subjects(qs.drop_last()) + match qs.last().subject {
            Some(s) => seq![s],
            None => Seq::empty(),
        }
    }
}

fn find_definition(defs: &Vec<ProjectDefinition>, id: &str) -> (r: usize)
    ensures
        r == definition_index(defs@, id@, 0),
{
    let mut i: usize = 0;
    while i < defs.len()
        invariant
            i <= defs@.len(),
            definition_index(defs@, id@, 0) == definition_index(defs@, id@, i as int),
        decreases defs@.len() - i,
    {
        if str_eq(defs[i].id.as_str(), id) {
            return i;
        }
        i = i + 1;
    }
    i
}

fn find_member<'a>(d: &'a ProjectDefinition, name: &str) -> (r: Option<&'a str>)
    ensures
        match r {
            Some(t) => member_target(members_of(*d), name@) == Some(t@),
            None => member_target(members_of(*d), name@) is None,
        },
{
    let addressable = d.kind == DefinitionKind::Entity || d.kind == DefinitionKind::ValueObject
        || d.kind == DefinitionKind::Command || d.kind == DefinitionKind::Event;
    if !addressable {
        assert(members_of(*d) =~= Seq::<(String, String)>::empty());
        return None;
    }
    assert(members_of(*d) == d.members@);
    assert(d.members@.subrange(0, d.members@.len() as int) =~= d.members@);
    let mut i: usize = d.members.len();
    while i > 0
        invariant
            i <= d.members@.len(),
            members_of(*d) == d.members@,
            member_target(d.members@, name@) == member_target(d.members@.subrange(0, i as int), name@),
        decreases i,
    {
        let ghost pre = d.members@.subrange(0, i as int);
        proof {
            assert(pre.drop_last() =~= d.members@.subrange(0, i - 1));
            assert(pre.last() == d.members@[i - 1]);
        }
        if str_eq(d.members[i - 1].0.as_str(), name) {
            return Some(d.members[i - 1].1.as_str());
        }
        i = i - 1;
    }
    assert(d.members@.subrange(0, 0) =~= Seq::<(String, String)>::empty());
    None
}

fn check_subject_resolves(defs: &Vec<ProjectDefinition>, subject: &SubjectPath) -> (r: Result<(), DiagnosticSet>)
    ensures
        match subject_failure(defs@, subject@) {
            Some(d) => r matches Err(set) && classification_set(set@, "classification.unknown-subject"@, d, Some(subject@)),
            None => r is Ok,
        },
{
    proof {
        reveal_strlit("unknown-symbol");
        reveal_strlit("unknown-field");
        reveal_strlit("unknown-payload-field");
    }
    let k = find_definition(defs, subject.semantic_id());
    if k >= defs.len() {
        return Err(super::diagnostic::unknown_subject("unknown-symbol", subject.as_str()));
    }
    let segments = subject.field_segments();
    proof {
        super::types::lemma_subject_levels(subject@);
        assert(segments@.len() == super::types::subject_fields(subject@).len());
    }
    if segments.len() >= 1 {
        assert(segments@[0]@ == super::types::subject_fields(subject@)[0]);
        let target = match find_member(&defs[k], segments[0].as_str()) {
            Some(t) => t,
            None => return Err(super::diagnostic::unknown_subject("unknown-field", subject.as_str())),
        };
        if segments.len() >= 2 {
            assert(segments@[1]@ == super::types::subject_fields(subject@)[1]);
            let j = find_definition(defs, target);
            let found = if j < defs.len() {
                find_member(&defs[j], segments[1].as_str()).is_some()
            } else {
                false
            };
            if !found {
                return Err(super::diagnostic::unknown_subject("unknown-payload-field", subject.as_str()));
            }
        }
    }
    Ok(())
}

fn check_subjects(defs: &Vec<ProjectDefinition>, subjects: &Vec<&SubjectPath>, all: Ghost<Seq<Seq<char>>>) -> (r: Result<(), DiagnosticSet>)
    requires
        subjects@.len() == all@.len(),
        forall|j: int| 0 <= j < all@.len() ==> (#[trigger] subjects@[j])@ == all@[j],
    ensures
        match first_failure(defs@, all@) {
            Some((d, s)) => r matches Err(set) && classification_set(set@, "classification.unknown-subject"@, d, Some(s)),
            None => r is Ok,
        },
{
    let mut k: usize = 0;
    assert(all@.subrange(0, 0) =~= Seq::<Seq<char>>::empty());
    while k < subjects.len()
        invariant
            k <= subjects@.len(),
            subjects@.len() == all@.len(),
            forall|j: int| 0 <= j < all@.len() ==> (#[trigger] subjects@[j])@ == all@[j],
            first_failure(defs@, all@.subrange(0, k as int)) is None,
        decreases subjects@.len() - k,
    {
        proof {
            assert(all@.subrange(0, k + 1).drop_last() =~= all@.subrange(0, k as int));
            assert(all@.subrange(0, k + 1).last() == subjects@[k as int]@);
        }
        if let Err(set) = check_subject_resolves(defs, subjects[k]) {
            proof { lemma_failure_extends(defs@, all@, k + 1); }
            return Err(set);
        }
        k = k + 1;
    }
    assert(all@.subrange(0, all@.len() as int) =~= all@);
    Ok(())
}

/// Resolve every declared subject against the bound project and reject
/// unknown symbols or field paths; return the resolution over the
/// validated attachment.
pub fn validate_subjects(attachment: &Attachment, project: &BoundProject) -> (r: Result<Resolution, DiagnosticSet>)
    ensures
        match first_failure(project.definitions@, declared_subjects(attachment@)) {
            Some((d, s)) => r matches Err(set) && classification_set(set@, "classification.unknown-subject"@, d, Some(s)),
            None => r matches Ok(res) && res@ == built_resolution(attachment@),
        },
{
    let ghost mut col: Seq<Seq<char>> = Seq::empty();
    let mut subjects: Vec<&SubjectPath> = Vec::new();
    let classifications = attachment.classifications();
    let mut i: usize = 0;
    while i < classifications.len()
        invariant
            i <= classifications@.len(),
            super::wire::classification_views(classifications@) == attachment@.classifications,
            subjects@.len() == col.len(),
            forall|j: int| 0 <= j < col.len() ==> (#[trigger] subjects@[j])@ == col[j],
            col == attachment@.classifications.map_values(|c: ClassificationView| c.subject).subrange(0, i as int),
        decreases classifications@.len() - i,
    {
        let s = classifications[i].subject();
        subjects.push(s);
        proof {
            col = col.push(s@);
            assert(attachment@.classifications[i as int] == classifications@[i as int]@);
            assert(col =~= attachment@.classifications.map_values(|c: ClassificationView| c.subject).subrange(0, i + 1));
        }
        i = i + 1;
    }
    let ghost part1 = col;
    let grants = attachment.declassifications();
    let mut i: usize = 0;
    while i < grants.len()
        invariant
            i <= grants@.len(),
            super::wire::grant_views(grants@) == attachment@.declassifications,
            subjects@.len() == col.len(),
            forall|j: int| 0 <= j < col.len() ==> (#[trigger] subjects@[j])@ == col[j],
            col == part1 + attachment@.declassifications.map_values(|g: DeclassificationView| g.subject).subrange(0, i as int),
        decreases grants@.len() - i,
    {
        let s = grants[i].subject();
        subjects.push(s);
        proof {
            col = col.push(s@);
            assert(attachment@.declassifications[i as int] == grants@[i as int]@);
            assert(col =~= part1 + attachment@.declassifications.map_values(|g: DeclassificationView| g.subject).subrange(0, i + 1));
        }
        i = i + 1;
    }
    let ghost part2 = col;
    let questions = attachment.open_questions();
    let mut i: usize = 0;
    assert(part2 + question_subjects(attachment@.open_questions.subrange(0, 0)) =~= part2);
    while i < questions.len()
        invariant
            i <= questions@.len(),
            super::wire::question_views(questions@) == attachment@.open_questions,
            subjects@.len() == col.len(),
            forall|j: int| 0 <= j < col.len() ==> (#[trigger] subjects@[j])@ == col[j],
            col == part2 + question_subjects(attachment@.open_questions.subrange(0, i as int)),
        decreases questions@.len() - i,
    {
        let ghost qs = attachment@.open_questions;
        proof {
            assert(qs.subrange(0, i + 1).drop_last() =~= qs.subrange(0, i as int));
            assert(qs.subrange(0, i + 1).last() == questions@[i as int]@);
        }
        match questions[i].subject() {
            Some(s) => {
                subjects.push(s);
                proof {
                    col = col.push(s@);
                    assert(col =~= part2 + question_subjects(qs.subrange(0, i + 1)));
                }
            },
            None => {
                assert(question_subjects(qs.subrange(0, i + 1)) =~= question_subjects(qs.subrange(0, i as int)));
            },
        }
        i = i + 1;
    }
    proof {
        assert(attachment@.classifications.map_values(|c: ClassificationView| c.subject).subrange(0, classifications@.len() as int)
            =~= attachment@.classifications.map_values(|c: ClassificationView| c.subject));
        assert(attachment@.declassifications.map_values(|g: DeclassificationView| g.subject).subrange(0, grants@.len() as int)
            =~= attachment@.declassifications.map_values(|g: DeclassificationView| g.subject));
        assert(attachment@.open_questions.subrange(0, questions@.len() as int) =~= attachment@.open_questions);
        assert(col =~= declared_subjects(attachment@));
    }
    check_subjects(&project.definitions, &subjects, Ghost(col))?;
    Ok(Resolution::build(attachment))
}

proof fn lemma_failure_extends(defs: Seq<ProjectDefinition>, ss: Seq<Seq<char>>, n: int)
    requires
        0 <= n <= ss.len(),
        first_failure(defs, ss.subrange(0, n)) is Some,
    ensures
        first_failure(defs, ss) == first_failure(defs, ss.subrange(0, n)),
    decreases ss.len() - n,
{
    if n < ss.len() {
        assert(ss.subrange(0, n + 1).drop_last() =~= ss.subrange(0, n));
        lemma_failure_extends(defs, ss, n + 1);
    } else {
        assert(ss.subrange(0, n) =~= ss);
    }
}

proof fn lemma_grant_row_in_pass(policy: PolicyView, gs: Seq<DeclassificationView>, as_of: Seq<char>, k: int,
    x: FindingRowView)
    requires
        grants_pass(policy, gs, as_of) is Ok,
        0 <= k < gs.len(),
        grant_rows(policy, gs[k], as_of).contains(x),
    ensures
        grants_pass(policy, gs, as_of)->Ok_0.contains(x),
    decreases gs.len(),
{
    let prev = grants_pass(policy, gs.drop_last(), as_of)->Ok_0;
    let last = grant_rows(policy, gs.last(), as_of);
    let all = grants_pass(policy, gs, as_of)->Ok_0;
    assert(all == prev + last);
    if k == gs.len() - 1 {
        let j = choose|j: int| 0 <= j < last.len() && last[j] == x;
        assert(all[prev.len() + j] == x);
    } else {
        assert(gs.drop_last()[k] == gs[k]);
        lemma_grant_row_in_pass(policy, gs.drop_last(), as_of, k, x);
        let j = choose|j: int| 0 <= j < prev.len() && prev[j] == x;
        assert(all[j] == x);
    }
}

/// A row of the grant pass lands in the outcome's rows, which makes the
/// outcome invalid.
proof fn lemma_pass_row_in_outcome(
    a: AttachmentView,
    policy: PolicyView,
    res: ResolutionView,
    defs: Seq<ProjectDefinition>,
    as_of: Seq<char>,
    o: ValidationOutcomeView,
    x: FindingRowView,
)
    requires
        validation_matches(a, policy, res, defs, as_of, o),
        grants_pass(policy, a.declassifications, as_of)->Ok_0.contains(x),
    ensures
        o.invalid,
        o.rows.contains(x),
{
    let cov = coverage_rows(res, policy, a.classifications);
    let g = grants_pass(policy, a.declassifications, as_of)->Ok_0;
    let j = choose|j: int| 0 <= j < g.len() && g[j] == x;
    assert(o.rows.subrange(cov.len() as int, (cov.len() + g.len()) as int)[j] == x);
    assert(o.rows[cov.len() + j] == x);
}

/// A structurally valid grant (the grant pass accepts every grant) whose
/// from-kind policy row declares no declassification roles makes the
/// outcome invalid with a missing-approval row for the grant's subject,
/// whatever that row's consent flag says.
pub proof fn lemma_roleless_grant_is_refused_approval(
    a: AttachmentView,
    policy: PolicyView,
    res: ResolutionView,
    defs: Seq<ProjectDefinition>,
    as_of: Seq<char>,
    o: ValidationOutcomeView,
    k: int,
)
    requires
        grants_pass(policy, a.declassifications, as_of) is Ok,
        validation_matches(a, policy, res, defs, as_of, o),
        0 <= k < a.declassifications.len(),
        rule_of(policy.kinds, a.declassifications[k].from_kind) is Some,
        rule_of(policy.kinds, a.declassifications[k].from_kind)->Some_0.declassify_roles.len() == 0,
    ensures
        o.invalid,
        o.rows.contains(row("classification.missing-approval"@, a.declassifications[k].subject)),
{
    let target = row("classification.missing-approval"@, a.declassifications[k].subject);
    assert(grant_rows(policy, a.declassifications[k], as_of)[0] == target);
    lemma_grant_row_in_pass(policy, a.declassifications, as_of, k, target);
    lemma_pass_row_in_outcome(a, policy, res, defs, as_of, o, target);
}

/// The other rows of an accepted grant: a grant whose from-kind has no
/// policy row is reported kind-rule-missing; one whose row carries
/// declassification roles is reported expired when its expiry sorts
/// before the as-of date, and self-approved when its review reference
/// is its own id. Each such row makes the outcome invalid.
pub proof fn lemma_accepted_grant_rows_are_reported(
    a: AttachmentView,
    policy: PolicyView,
    res: ResolutionView,
    defs: Seq<ProjectDefinition>,
    as_of: Seq<char>,
    o: ValidationOutcomeView,
    k: int,
)
    requires
        grants_pass(policy, a.declassifications, as_of) is Ok,
        validation_matches(a, policy, res, defs, as_of, o),
        0 <= k < a.declassifications.len(),
    ensures
        rule_of(policy.kinds, a.declassifications[k].from_kind) is None ==> o.invalid
            && o.rows.contains(row("classification.kind-rule-missing"@, a.declassifications[k].subject)),
        (rule_of(policy.kinds, a.declassifications[k].from_kind) is Some
            && rule_of(policy.kinds, a.declassifications[k].from_kind)->Some_0.declassify_roles.len() > 0
            && a.declassifications[k].expires_at is Some
            && text_lt(a.declassifications[k].expires_at.unwrap(), as_of)) ==> o.invalid
            && o.rows.contains(row("classification.expired-declassification"@, a.declassifications[k].subject)),
        (rule_of(policy.kinds, a.declassifications[k].from_kind) is Some
            && rule_of(policy.kinds, a.declassifications[k].from_kind)->Some_0.declassify_roles.len() > 0
            && a.declassifications[k].approved_by == a.declassifications[k].id) ==> o.invalid
            && o.rows.contains(row("classification.self-approved"@, a.declassifications[k].subject)),
{
    let g = a.declassifications[k];
    let rows = grant_rows(policy, g, as_of);
    match rule_of(policy.kinds, g.from_kind) {
        None => {
            let t = row("classification.kind-rule-missing"@, g.subject);
            assert(rows[0] == t);
            lemma_grant_row_in_pass(policy, a.declassifications, as_of, k, t);
            lemma_pass_row_in_outcome(a, policy, res, defs, as_of, o, t);
        },
        Some(rule) => if rule.declassify_roles.len() > 0 {
            let expired = g.expires_at is Some && text_lt(g.expires_at.unwrap(), as_of);
            if expired {
                let t = row("classification.expired-declassification"@, g.subject);
                assert(rows[0] == t);
                lemma_grant_row_in_pass(policy, a.declassifications, as_of, k, t);
                lemma_pass_row_in_outcome(a, policy, res, defs, as_of, o, t);
            }
            if g.approved_by == g.id {
                let t = row("classification.self-approved"@, g.subject);
                let at: int = if expired { 1 } else { 0 };
                assert(rows[at] == t);
                lemma_grant_row_in_pass(policy, a.declassifications, as_of, k, t);
                lemma_pass_row_in_outcome(a, policy, res, defs, as_of, o, t);
            }
        },
    }
}

} // verus!
