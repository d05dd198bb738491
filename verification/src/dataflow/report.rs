//! The typed data-flow report: flows, findings, unknowns, and the
//! aggregated gate verdict, pinned to the exact canonical digests of the
//! classification and policy inputs.

use vstd::prelude::*;
use crate::ids::{SemanticId, Sha256Digest};
use crate::classification::types::{BoundedText, QuestionId};
use super::types::{Finding, FindingView, Flow, FlowView, Severity, UnknownFlow, UnknownFlowView,
    finding_wire, flow_wire, unknown_wire};
use crate::json::{JsonValue, MemberShape, flag_is, members_are, object_is, optional_member, push_member,
    rendered_json, tree, render_json, text_is, text_value};
use crate::text::byte_len;
use crate::diagnostics::set::DiagnosticSet;
use crate::diagnostics::item::DiagnosticView;
use crate::classification::canonical::{object_shaped, pin_shape, pin_wire};
use crate::classification::diagnostic::classification_set;
use super::version::{IDENTITY, MAX_CANONICAL_BYTES, SCHEMA_VERSION};

verus! {

/// One registered report open question.
#[derive(Debug)]
pub struct ReportQuestion {
    id: QuestionId,
    question: BoundedText,
}

impl View for ReportQuestion {
    type V = (Seq<char>, Seq<char>);

    closed spec fn view(&self) -> (Seq<char>, Seq<char>) {
        (self.id@, self.question@)
    }
}

impl ReportQuestion {
    /// The question id.
    pub fn id(&self) -> (r: &QuestionId)
        ensures
            r@ == self@.0,
    {
        &self.id
    }

    /// The bounded question text.
    pub fn question(&self) -> (r: &BoundedText)
        ensures
            r@ == self@.1,
    {
        &self.question
    }
}

/// The aggregated gate verdict.
#[derive(Clone, Copy, Debug, PartialEq, Eq, Structural)]
pub enum Verdict {
    /// Every gate satisfied and no error-severity finding.
    Pass,
    /// At least one gate unsatisfied, one error-severity finding, or
    /// incomplete inputs.
    Denied,
}

impl Verdict {
    /// The wire spelling of each verdict.
    pub open spec fn spec_text(self) -> Seq<char> {
        match self {
            Verdict::Pass => "pass"@,
            Verdict::Denied => "denied"@,
        }
    }

    /// The exact wire spelling.
    pub fn as_str(self) -> (r: &'static str)
        ensures
            r@ == self.spec_text(),
    {
        match self {
            Verdict::Pass => "pass",
            Verdict::Denied => "denied",
        }
    }
}

/// The views of a list of flows.
pub open spec fn flow_views(s: Seq<Flow>) -> Seq<FlowView> {
    s.map_values(|f: Flow| f@)
}

/// The views of a list of findings.
pub open spec fn finding_views(s: Seq<Finding>) -> Seq<FindingView> {
    s.map_values(|f: Finding| f@)
}

/// The views of a list of unknown flows.
pub open spec fn unknown_views(s: Seq<UnknownFlow>) -> Seq<UnknownFlowView> {
    s.map_values(|u: UnknownFlow| u@)
}

/// The views of a list of open questions.
pub open spec fn question_views(s: Seq<ReportQuestion>) -> Seq<(Seq<char>, Seq<char>)> {
    s.map_values(|q: ReportQuestion| q@)
}

/// Whether a flow carries a gate that is not satisfied.
pub open spec fn gate_unsatisfied(f: FlowView) -> bool {
    f.gate matches Some(g) && !g.satisfied
}

/// Whether the report denies: incomplete inputs, an unsatisfied flow
/// gate, or an error finding each deny; unknown is never safe.
pub open spec fn spec_verdict(flows: Seq<FlowView>, findings: Seq<FindingView>, inputs_complete: bool) -> Verdict {
    if !inputs_complete
        || (exists|i: int| 0 <= i < flows.len() && #[trigger] gate_unsatisfied(flows[i]))
        || (exists|i: int| 0 <= i < findings.len() && #[trigger] findings[i].severity == Severity::Error) {
        Verdict::Denied
    } else {
        Verdict::Pass
    }
}

/// The contract-level content of a report.
pub struct ReportView {
    pub report_revision: Seq<char>,
    pub project_id: Seq<char>,
    pub model_ref: (Seq<char>, Seq<char>),
    pub ir_ref: (Seq<char>, Seq<char>),
    pub classification_ref: Seq<char>,
    pub policy_ref: Seq<char>,
    pub generated_by: Seq<char>,
    pub inputs_complete: bool,
    pub verdict: Verdict,
    pub flows: Seq<FlowView>,
    pub findings: Seq<FindingView>,
    pub unknowns: Seq<UnknownFlowView>,
    pub open_questions: Seq<(Seq<char>, Seq<char>)>,
}

/// The typed data-flow report.
#[derive(Debug)]
pub struct Report {
    report_revision: String,
    project_id: SemanticId,
    model_ref: (String, Sha256Digest),
    ir_ref: (String, Sha256Digest),
    classification_ref: Sha256Digest,
    policy_ref: Sha256Digest,
    generated_by: String,
    inputs_complete: bool,
    verdict: Verdict,
    flows: Vec<Flow>,
    findings: Vec<Finding>,
    unknowns: Vec<UnknownFlow>,
    open_questions: Vec<ReportQuestion>,
}

impl View for Report {
    type V = ReportView;

    closed spec fn view(&self) -> ReportView {
        ReportView {
            report_revision: self.report_revision@,
            project_id: self.project_id@,
            model_ref: (self.model_ref.0@, self.model_ref.1@),
            ir_ref: (self.ir_ref.0@, self.ir_ref.1@),
            classification_ref: self.classification_ref@,
            policy_ref: self.policy_ref@,
            generated_by: self.generated_by@,
            inputs_complete: self.inputs_complete,
            verdict: self.verdict,
            flows: flow_views(self.flows@),
            findings: finding_views(self.findings@),
            unknowns: unknown_views(self.unknowns@),
            open_questions: question_views(self.open_questions@),
        }
    }
}

/// Derive the aggregated verdict.
fn verdict_of(flows: &Vec<Flow>, findings: &Vec<Finding>, inputs_complete: bool) -> (r: Verdict)
    ensures
        r == spec_verdict(flow_views(flows@), finding_views(findings@), inputs_complete),
{
    if !inputs_complete {
        return Verdict::Denied;
    }
    let mut k: usize = 0;
    while k < flows.len()
        invariant
            k <= flows@.len(),
            forall|j: int| 0 <= j < k ==> !gate_unsatisfied(#[trigger] flow_views(flows@)[j]),
        decreases flows@.len() - k,
    {
        assert(flow_views(flows@)[k as int] == flows@[k as int]@);
        match flows[k].gate() {
            Some(g) => {
                if !g.satisfied() {
                    assert(gate_unsatisfied(flow_views(flows@)[k as int]));
                    return Verdict::Denied;
                }
            },
            None => {},
        }
        k = k + 1;
    }
    let mut i: usize = 0;
    while i < findings.len()
        invariant
            i <= findings@.len(),
            forall|j: int| 0 <= j < flows@.len() ==> !gate_unsatisfied(#[trigger] flow_views(flows@)[j]),
            forall|j: int| 0 <= j < i ==> #[trigger] finding_views(findings@)[j].severity != Severity::Error,
        decreases findings@.len() - i,
    {
        if findings[i].severity().is_error() {
            assert(finding_views(findings@)[i as int].severity == Severity::Error);
            return Verdict::Denied;
        }
        i = i + 1;
    }
    Verdict::Pass
}

impl Report {
    /// Assemble from validated parts; collections are kept in the
    /// caller's canonical order, and the verdict is derived.
    pub(crate) fn assemble(
        report_revision: String,
        project_id: SemanticId,
        model_ref: (String, Sha256Digest),
        ir_ref: (String, Sha256Digest),
        classification_ref: Sha256Digest,
        policy_ref: Sha256Digest,
        generated_by: String,
        inputs_complete: bool,
        flows: Vec<Flow>,
        findings: Vec<Finding>,
        unknowns: Vec<UnknownFlow>,
        open_questions: Vec<ReportQuestion>,
    ) -> (r: Report)
        ensures
            r@.report_revision == report_revision@,
            r@.project_id == project_id@,
            r@.model_ref == (model_ref.0@, model_ref.1@),
            r@.ir_ref == (ir_ref.0@, ir_ref.1@),
            r@.classification_ref == classification_ref@,
            r@.policy_ref == policy_ref@,
            r@.generated_by == generated_by@,
            r@.inputs_complete == inputs_complete,
            r@.verdict == spec_verdict(flow_views(flows@), finding_views(findings@), inputs_complete),
            r@.flows == flow_views(flows@),
            r@.findings == finding_views(findings@),
            r@.unknowns == unknown_views(unknowns@),
            r@.open_questions == question_views(open_questions@),
    {
        let verdict = verdict_of(&flows, &findings, inputs_complete);
        Report {
            report_revision,
            project_id,
            model_ref,
            ir_ref,
            classification_ref,
            policy_ref,
            generated_by,
            inputs_complete,
            verdict,
            flows,
            findings,
            unknowns,
            open_questions,
        }
    }

    /// The exact report revision.
    pub fn report_revision(&self) -> (r: &str)
        ensures
            r@ == self@.report_revision,
    {
        self.report_revision.as_str()
    }

    /// The stable project identity.
    pub fn project_id(&self) -> (r: &SemanticId)
        ensures
            r@ == self@.project_id,
    {
        &self.project_id
    }

    /// The bound Model pin `(modelVersion, digest)`.
    pub fn model_ref(&self) -> (r: &(String, Sha256Digest))
        ensures
            (r.0@, r.1@) == self@.model_ref,
    {
        &self.model_ref
    }

    /// The bound IR pin `(irVersion, digest)`.
    pub fn ir_ref(&self) -> (r: &(String, Sha256Digest))
        ensures
            (r.0@, r.1@) == self@.ir_ref,
    {
        &self.ir_ref
    }

    /// The exact canonical digest of the classification input.
    pub fn classification_ref(&self) -> (r: &Sha256Digest)
        ensures
            r@ == self@.classification_ref,
    {
        &self.classification_ref
    }

    /// The exact canonical digest of the policy input.
    pub fn policy_ref(&self) -> (r: &Sha256Digest)
        ensures
            r@ == self@.policy_ref,
    {
        &self.policy_ref
    }

    /// The engine identity that derived this report.
    pub fn generated_by(&self) -> (r: &str)
        ensures
            r@ == self@.generated_by,
    {
        self.generated_by.as_str()
    }

    /// Whether every input section was complete.
    pub fn inputs_complete(&self) -> (r: bool)
        ensures
            r == self@.inputs_complete,
    {
        self.inputs_complete
    }

    /// The aggregated verdict.
    pub fn verdict(&self) -> (r: Verdict)
        ensures
            r == self@.verdict,
    {
        self.verdict
    }

    /// Every flow, canonically ordered.
    pub fn flows(&self) -> (r: &[Flow])
        ensures
            flow_views(r@) == self@.flows,
    {
        self.flows.as_slice()
    }

    /// Every finding, canonically ordered.
    pub fn findings(&self) -> (r: &[Finding])
        ensures
            finding_views(r@) == self@.findings,
    {
        self.findings.as_slice()
    }

    /// Every unknown flow, canonically ordered.
    pub fn unknowns(&self) -> (r: &[UnknownFlow])
        ensures
            unknown_views(r@) == self@.unknowns,
    {
        self.unknowns.as_slice()
    }

    /// Every open question, canonically ordered.
    pub fn open_questions(&self) -> (r: &[ReportQuestion])
        ensures
            question_views(r@) == self@.open_questions,
    {
        self.open_questions.as_slice()
    }
}


// ---------------------------------------------------------------------
// The canonical report export

/// An array of flows, in order.
pub open spec fn flows_are(fs: Seq<FlowView>) -> spec_fn(JsonValue) -> bool {
    |v: JsonValue| v matches JsonValue::Array(items) && items@.len() == fs.len()
        && forall|i: int| 0 <= i < fs.len() ==> flow_wire(#[trigger] items@[i], fs[i])
}

/// An array of findings, in order.
pub open spec fn findings_are(fs: Seq<FindingView>) -> spec_fn(JsonValue) -> bool {
    |v: JsonValue| v matches JsonValue::Array(items) && items@.len() == fs.len()
        && forall|i: int| 0 <= i < fs.len() ==> finding_wire(#[trigger] items@[i], fs[i])
}

/// An array of unknown flows, in order.
pub open spec fn unknowns_are(us: Seq<UnknownFlowView>) -> spec_fn(JsonValue) -> bool {
    |v: JsonValue| v matches JsonValue::Array(items) && items@.len() == us.len()
        && forall|i: int| 0 <= i < us.len() ==> unknown_wire(#[trigger] items@[i], us[i])
}

/// One open question `{id, question}`.
pub open spec fn report_question_shape(q: (Seq<char>, Seq<char>)) -> Seq<MemberShape> {
    seq![("id"@, text_is(q.0)), ("question"@, text_is(q.1))]
}

/// An array of open questions, in order.
pub open spec fn report_questions_are(qs: Seq<(Seq<char>, Seq<char>)>) -> spec_fn(JsonValue) -> bool {
    |v: JsonValue| v matches JsonValue::Array(items) && items@.len() == qs.len()
        && forall|i: int| 0 <= i < qs.len() ==> object_is(#[trigger] items@[i], report_question_shape(qs[i]))
}

/// The closed wire form of a report, members in byte order of their
/// names; `openQuestions` appears only when non-empty.
pub open spec fn report_shape(r: ReportView) -> Seq<MemberShape> {
    seq![
        ("classificationRef"@, text_is(r.classification_ref)),
        ("findings"@, findings_are(r.findings)),
        ("flows"@, flows_are(r.flows)),
        ("generatedBy"@, text_is(r.generated_by)),
        ("identity"@, text_is(IDENTITY@)),
        ("inputsComplete"@, flag_is(r.inputs_complete)),
        ("irRef"@, object_shaped(pin_shape("irVersion"@, r.ir_ref))),
        ("modelRef"@, object_shaped(pin_shape("modelVersion"@, r.model_ref))),
    ]
        + optional_member(r.open_questions.len() > 0, ("openQuestions"@, report_questions_are(r.open_questions)))
        + seq![
            ("policyRef"@, text_is(r.policy_ref)),
            ("projectId"@, text_is(r.project_id)),
            ("reportRevision"@, text_is(r.report_revision)),
            ("schemaVersion"@, text_is(SCHEMA_VERSION@)),
            ("unknowns"@, unknowns_are(r.unknowns)),
            ("verdict"@, text_is(r.verdict.spec_text())),
        ]
}

fn flows_wire(fs: &[Flow]) -> (r: JsonValue)
    ensures
        flows_are(flow_views(fs@))(r),
{
    let mut items: Vec<JsonValue> = Vec::new();
    let mut i: usize = 0;
    while i < fs.len()
        invariant
            i <= fs@.len(),
            items@.len() == i,
            forall|j: int| 0 <= j < i ==> flow_wire(#[trigger] items@[j], fs@[j]@),
        decreases fs@.len() - i,
    {
        items.push(fs[i].to_wire());
        i = i + 1;
    }
    JsonValue::Array(items)
}

fn findings_wire(fs: &[Finding]) -> (r: JsonValue)
    ensures
        findings_are(finding_views(fs@))(r),
{
    let mut items: Vec<JsonValue> = Vec::new();
    let mut i: usize = 0;
    while i < fs.len()
        invariant
            i <= fs@.len(),
            items@.len() == i,
            forall|j: int| 0 <= j < i ==> finding_wire(#[trigger] items@[j], fs@[j]@),
        decreases fs@.len() - i,
    {
        items.push(fs[i].to_wire());
        i = i + 1;
    }
    JsonValue::Array(items)
}

fn unknowns_wire(us: &[UnknownFlow]) -> (r: JsonValue)
    ensures
        unknowns_are(unknown_views(us@))(r),
{
    let mut items: Vec<JsonValue> = Vec::new();
    let mut i: usize = 0;
    while i < us.len()
        invariant
            i <= us@.len(),
            items@.len() == i,
            forall|j: int| 0 <= j < i ==> unknown_wire(#[trigger] items@[j], us@[j]@),
        decreases us@.len() - i,
    {
        items.push(us[i].to_wire());
        i = i + 1;
    }
    JsonValue::Array(items)
}

fn report_question_wire(q: &ReportQuestion) -> (r: JsonValue)
    ensures
        object_is(r, report_question_shape(q@)),
{
    let mut fields: Vec<(String, JsonValue)> = Vec::new();
    let ghost f0 = fields@;
    push_member(&mut fields, "id", text_value(q.id().as_str()));
    let ghost f1 = fields@;
    push_member(&mut fields, "question", text_value(q.question().as_str()));
    proof {
        assert(fields@ == f1.push(fields@.last()));
        assert(fields@[0] == f1[0]);
        assert(members_are(fields@, report_question_shape(q@)));
    }
    JsonValue::Object(fields)
}

fn report_questions_wire(qs: &[ReportQuestion]) -> (r: JsonValue)
    ensures
        report_questions_are(question_views(qs@))(r),
{
    let mut items: Vec<JsonValue> = Vec::new();
    let mut i: usize = 0;
    while i < qs.len()
        invariant
            i <= qs@.len(),
            items@.len() == i,
            forall|j: int| 0 <= j < i ==> object_is(#[trigger] items@[j], report_question_shape(qs@[j]@)),
        decreases qs@.len() - i,
    {
        items.push(report_question_wire(&qs[i]));
        i = i + 1;
    }
    JsonValue::Array(items)
}

impl Report {
    /// The closed wire form of the report, members in byte order of
    /// their names.
    pub fn wire(&self) -> (r: JsonValue)
        ensures
            object_is(r, report_shape(self@)),
    {
        let ghost rv = self@;
        let mut fields: Vec<(String, JsonValue)> = Vec::new();
        let ghost mut want: Seq<MemberShape> = Seq::empty();
        let ghost mut f = fields@;
        push_member(&mut fields, "classificationRef", text_value(self.classification_ref().as_str()));
        proof {
            let w = ("classificationRef"@, text_is(rv.classification_ref));
            crate::json::lemma_members_push(f, want, fields@.last(), w);
            want = want.push(w);
            f = fields@;
        }
        push_member(&mut fields, "findings", findings_wire(self.findings()));
        proof {
            let w = ("findings"@, findings_are(rv.findings));
            crate::json::lemma_members_push(f, want, fields@.last(), w);
            want = want.push(w);
            f = fields@;
        }
        push_member(&mut fields, "flows", flows_wire(self.flows()));
        proof {
            let w = ("flows"@, flows_are(rv.flows));
            crate::json::lemma_members_push(f, want, fields@.last(), w);
            want = want.push(w);
            f = fields@;
        }
        push_member(&mut fields, "generatedBy", text_value(self.generated_by()));
        proof {
            let w = ("generatedBy"@, text_is(rv.generated_by));
            crate::json::lemma_members_push(f, want, fields@.last(), w);
            want = want.push(w);
            f = fields@;
        }
        push_member(&mut fields, "identity", text_value(IDENTITY));
        proof {
            let w = ("identity"@, text_is(IDENTITY@));
            crate::json::lemma_members_push(f, want, fields@.last(), w);
            want = want.push(w);
            f = fields@;
        }
        push_member(&mut fields, "inputsComplete", JsonValue::Bool(self.inputs_complete()));
        proof {
            let w = ("inputsComplete"@, flag_is(rv.inputs_complete));
            crate::json::lemma_members_push(f, want, fields@.last(), w);
            want = want.push(w);
            f = fields@;
        }
        let ir = self.ir_ref();
        push_member(&mut fields, "irRef", pin_wire("irVersion", ir.0.as_str(), ir.1.as_str()));
        proof {
            let w = ("irRef"@, object_shaped(pin_shape("irVersion"@, rv.ir_ref)));
            crate::json::lemma_members_push(f, want, fields@.last(), w);
            want = want.push(w);
            f = fields@;
        }
        let model = self.model_ref();
        push_member(&mut fields, "modelRef", pin_wire("modelVersion", model.0.as_str(), model.1.as_str()));
        proof {
            let w = ("modelRef"@, object_shaped(pin_shape("modelVersion"@, rv.model_ref)));
            crate::json::lemma_members_push(f, want, fields@.last(), w);
            want = want.push(w);
            f = fields@;
        }
        let questions = self.open_questions();
        if questions.len() > 0 {
            push_member(&mut fields, "openQuestions", report_questions_wire(questions));
            proof {
                let w = ("openQuestions"@, report_questions_are(rv.open_questions));
                crate::json::lemma_members_push(f, want, fields@.last(), w);
                want = want.push(w);
                f = fields@;
            }
        }
        push_member(&mut fields, "policyRef", text_value(self.policy_ref().as_str()));
        proof {
            let w = ("policyRef"@, text_is(rv.policy_ref));
            crate::json::lemma_members_push(f, want, fields@.last(), w);
            want = want.push(w);
            f = fields@;
        }
        push_member(&mut fields, "projectId", text_value(self.project_id().as_str()));
        proof {
            let w = ("projectId"@, text_is(rv.project_id));
            crate::json::lemma_members_push(f, want, fields@.last(), w);
            want = want.push(w);
            f = fields@;
        }
        push_member(&mut fields, "reportRevision", text_value(self.report_revision()));
        proof {
            let w = ("reportRevision"@, text_is(rv.report_revision));
            crate::json::lemma_members_push(f, want, fields@.last(), w);
            want = want.push(w);
            f = fields@;
        }
        push_member(&mut fields, "schemaVersion", text_value(SCHEMA_VERSION));
        proof {
            let w = ("schemaVersion"@, text_is(SCHEMA_VERSION@));
            crate::json::lemma_members_push(f, want, fields@.last(), w);
            want = want.push(w);
            f = fields@;
        }
        push_member(&mut fields, "unknowns", unknowns_wire(self.unknowns()));
        proof {
            let w = ("unknowns"@, unknowns_are(rv.unknowns));
            crate::json::lemma_members_push(f, want, fields@.last(), w);
            want = want.push(w);
            f = fields@;
        }
        push_member(&mut fields, "verdict", text_value(self.verdict().as_str()));
        proof {
            let w = ("verdict"@, text_is(rv.verdict.spec_text()));
            crate::json::lemma_members_push(f, want, fields@.last(), w);
            want = want.push(w);
            assert(want =~= report_shape(rv));
        }
        JsonValue::Object(fields)
    }
}

/// `s` is what the writer gives for some wire form of the report.
pub open spec fn report_exports(r: ReportView, s: Seq<char>) -> bool {
    exists|w: JsonValue| #[trigger] object_is(w, report_shape(r)) && rendered_json(tree(w)) == s
}

/// Some wire form of the report writes to more than the canonical
/// bound.
pub open spec fn report_over_bound(r: ReportView) -> bool {
    exists|w: JsonValue| #[trigger] object_is(w, report_shape(r)) && byte_len(rendered_json(tree(w))) > MAX_CANONICAL_BYTES
}

/// The report's canonical-bytes refusal.
pub open spec fn report_bytes_refusal(e: Seq<DiagnosticView>) -> bool {
    classification_set(e, "classification.unknown-kind"@, "report-canonical-bytes"@, None)
}

/// The canonical export of one report: compact JSON of its wire form
/// with byte-sorted keys and no trailing LF, or the refusal when its
/// UTF-8 bytes exceed the canonical bound.
pub fn report_canonical_bytes(report: &Report) -> (r: Result<String, DiagnosticSet>)
    ensures
        match r {
            Ok(s) => report_exports(report@, s@) && byte_len(s@) <= MAX_CANONICAL_BYTES,
            Err(e) => report_over_bound(report@) && report_bytes_refusal(e@),
        },
{
    let wire = report.wire();
    let text = render_json(&wire);
    if text.as_str().as_bytes().len() > MAX_CANONICAL_BYTES {
        let e = super::diagnostic::document_invalid("canonical-bytes", None);
        proof {
            reveal_strlit("report-");
            reveal_strlit("canonical-bytes");
            reveal_strlit("report-canonical-bytes");
            assert("report-"@ + "canonical-bytes"@ =~= "report-canonical-bytes"@);
            assert(object_is(wire, report_shape(report@)));
        }
        return Err(e);
    }
    proof {
        assert(object_is(wire, report_shape(report@)));
    }
    Ok(text)
}

// ---------------------------------------------------------------------
// Re-reading an exported report

/// The closed top-level member set of a report document.
pub open spec fn report_keys() -> Seq<Seq<char>> {
    seq!["schemaVersion"@, "identity"@, "reportRevision"@, "projectId"@, "modelRef"@, "irRef"@,
        "classificationRef"@, "policyRef"@, "generatedBy"@, "inputsComplete"@, "verdict"@, "flows"@,
        "findings"@, "unknowns"@, "openQuestions"@]
}

fn report_key_list() -> (r: Vec<&'static str>)
    ensures
        crate::json::key_texts(r@) == report_keys(),
{
    let mut r: Vec<&'static str> = Vec::new();
    r.push("schemaVersion");
    r.push("identity");
    r.push("reportRevision");
    r.push("projectId");
    r.push("modelRef");
    r.push("irRef");
    r.push("classificationRef");
    r.push("policyRef");
    r.push("generatedBy");
    r.push("inputsComplete");
    r.push("verdict");
    r.push("flows");
    r.push("findings");
    r.push("unknowns");
    r.push("openQuestions");
    assert(crate::json::key_texts(r@) =~= report_keys());
    r
}

/// Every row parses as a flow: the flows, or `None` at the first row
/// that does not.
pub open spec fn flows_of(items: Seq<JsonValue>) -> Option<Seq<FlowView>>
    decreases items.len(),
{
    if items.len() == 0 {
        Some(Seq::empty())
    } else {
        match flows_of(items.drop_last()) {
            None => None,
            Some(p) => match super::types::flow_of_wire(items.last()) {
                Ok(f) => Some(p.push(f)),
                Err(_) => None,
            },
        }
    }
}

/// Every row parses as a finding.
pub open spec fn findings_of(items: Seq<JsonValue>) -> Option<Seq<FindingView>>
    decreases items.len(),
{
    if items.len() == 0 {
        Some(Seq::empty())
    } else {
        match findings_of(items.drop_last()) {
            None => None,
            Some(p) => match super::types::finding_of_wire(items.last()) {
                Ok(f) => Some(p.push(f)),
                Err(_) => None,
            },
        }
    }
}

/// Every row parses as an unknown flow.
pub open spec fn unknowns_of(items: Seq<JsonValue>) -> Option<Seq<UnknownFlowView>>
    decreases items.len(),
{
    if items.len() == 0 {
        Some(Seq::empty())
    } else {
        match unknowns_of(items.drop_last()) {
            None => None,
            Some(p) => match super::types::unknown_of_wire(items.last()) {
                Ok(u) => Some(p.push(u)),
                Err(_) => None,
            },
        }
    }
}

/// Why one open-question row is refused, if it is.
pub open spec fn question_row_error(v: JsonValue) -> Option<Seq<char>> {
    if !crate::json::is_object(v) {
        Some("open-question-shape"@)
    } else if !(crate::json::text_of(crate::json::member(v, "id"@)) matches Some(t)
        && crate::classification::types::label_error(t) is None) {
        Some("question-id"@)
    } else if !(crate::json::text_of(crate::json::member(v, "question"@)) matches Some(t)
        && crate::classification::types::bounded_text_error(t) is None) {
        Some("question"@)
    } else {
        None
    }
}

/// The open questions of the rows, or the refusal of the first bad row.
pub open spec fn questions_of(items: Seq<JsonValue>) -> Result<Seq<(Seq<char>, Seq<char>)>, Seq<char>>
    decreases items.len(),
{
    if items.len() == 0 {
        Ok(Seq::empty())
    } else {
        match questions_of(items.drop_last()) {
            Err(d) => Err(d),
            Ok(p) => match question_row_error(items.last()) {
                Some(d) => Err(d),
                None => Ok(p.push((crate::json::text_of(crate::json::member(items.last(), "id"@)).unwrap(),
                    crate::json::text_of(crate::json::member(items.last(), "question"@)).unwrap()))),
            },
        }
    }
}

/// A custody pin object: its version under `version_key` and a valid
/// prefixed digest.
pub open spec fn pin_of(v: Option<JsonValue>, version_key: Seq<char>) -> Option<(Seq<char>, Seq<char>)> {
    match v {
        Some(o) => if crate::json::is_object(o)
            && crate::json::text_of(crate::json::member(o, version_key)) is Some
            && (crate::json::text_of(crate::json::member(o, "digest"@)) matches Some(d) && crate::digest::is_digest_text(d)) {
            Some((crate::json::text_of(crate::json::member(o, version_key)).unwrap(),
                crate::json::text_of(crate::json::member(o, "digest"@)).unwrap()))
        } else {
            None
        },
        None => None,
    }
}

/// The text of a top-level member.
pub open spec fn text_at(v: JsonValue, key: Seq<char>) -> Option<Seq<char>> {
    crate::json::text_of(crate::json::member(v, key))
}

/// A digest-valued top-level member.
pub open spec fn digest_at(v: JsonValue, key: Seq<char>) -> Option<Seq<char>> {
    match text_at(v, key) {
        Some(t) => if crate::digest::is_digest_text(t) { Some(t) } else { None },
        None => None,
    }
}

/// The verdict a document spells.
pub open spec fn verdict_at(v: JsonValue) -> Option<Verdict> {
    if text_at(v, "verdict"@) == Some("pass"@) {
        Some(Verdict::Pass)
    } else if text_at(v, "verdict"@) == Some("denied"@) {
        Some(Verdict::Denied)
    } else {
        None
    }
}

/// The open questions of a document: absent or not a list reads as
/// none.
pub open spec fn report_questions_at(v: JsonValue) -> Result<Seq<(Seq<char>, Seq<char>)>, Seq<char>> {
    match crate::json::array_of(crate::json::member(v, "openQuestions"@)) {
        None => Ok(Seq::empty()),
        Some(items) => if items.len() > super::version::MAX_OPEN_QUESTIONS {
            Err("open-question-list"@)
        } else {
            questions_of(items)
        },
    }
}

/// The rows of a document: flows, findings, then unknowns, each list
/// bounded and every row valid.
pub open spec fn report_rows(v: JsonValue)
    -> Result<(Seq<FlowView>, Seq<FindingView>, Seq<UnknownFlowView>), Seq<char>> {
    let fl = crate::json::array_of(crate::json::member(v, "flows"@));
    let fi = crate::json::array_of(crate::json::member(v, "findings"@));
    let un = crate::json::array_of(crate::json::member(v, "unknowns"@));
    if fl is None || fl.unwrap().len() > super::version::MAX_FLOWS {
        Err("flow-list"@)
    } else if flows_of(fl.unwrap()) is None {
        Err("flow-row"@)
    } else if fi is None || fi.unwrap().len() > super::version::MAX_FINDINGS {
        Err("finding-list"@)
    } else if findings_of(fi.unwrap()) is None {
        Err("finding-row"@)
    } else if un is None || un.unwrap().len() > super::version::MAX_UNKNOWNS {
        Err("unknown-list"@)
    } else if unknowns_of(un.unwrap()) is None {
        Err("unknown-row"@)
    } else {
        Ok((flows_of(fl.unwrap()).unwrap(), findings_of(fi.unwrap()).unwrap(), unknowns_of(un.unwrap()).unwrap()))
    }
}

/// The scalar members of a document, in the order they are checked.
pub open spec fn report_scalars_error(v: JsonValue) -> Option<Seq<char>> {
    if !(text_at(v, "reportRevision"@) matches Some(t) && crate::ids::is_revision(t)) {
        Some("report-revision"@)
    } else if !(text_at(v, "projectId"@) matches Some(t) && crate::ids::is_root_id(t)) {
        Some("project-id"@)
    } else if pin_of(crate::json::member(v, "modelRef"@), "modelVersion"@) is None {
        Some("model-ref"@)
    } else if pin_of(crate::json::member(v, "irRef"@), "irVersion"@) is None {
        Some("ir-ref"@)
    } else if digest_at(v, "classificationRef"@) is None {
        Some("classification-ref"@)
    } else if digest_at(v, "policyRef"@) is None {
        Some("policy-ref"@)
    } else if !(text_at(v, "generatedBy"@) matches Some(t) && 0 < byte_len(t) <= 64) {
        Some("generated-by"@)
    } else if crate::json::bool_of(crate::json::member(v, "inputsComplete"@)) is None {
        Some("inputs-complete"@)
    } else {
        None
    }
}

/// What re-reading a report document gives: the refusal detail of the
/// first failed check, or the report it spells.
pub open spec fn report_outcome(v: JsonValue) -> Result<ReportView, Seq<char>> {
    if !crate::json::is_object(v) {
        Err("top-level-shape"@)
    } else if !crate::json::members_within(v, report_keys()) {
        Err("unknown-field"@)
    } else if text_at(v, "schemaVersion"@) != Some(SCHEMA_VERSION@) {
        Err("schema-version"@)
    } else if text_at(v, "identity"@) != Some(IDENTITY@) {
        Err("contract-identity"@)
    } else if report_rows(v) is Err {
        Err(report_rows(v)->Err_0)
    } else if report_scalars_error(v) is Some {
        Err(report_scalars_error(v).unwrap())
    } else if report_questions_at(v) is Err {
        Err(report_questions_at(v)->Err_0)
    } else if verdict_at(v) is None {
        Err("verdict"@)
    } else {
        let rows = report_rows(v)->Ok_0;
        Ok(ReportView {
            report_revision: text_at(v, "reportRevision"@).unwrap(),
            project_id: text_at(v, "projectId"@).unwrap(),
            model_ref: pin_of(crate::json::member(v, "modelRef"@), "modelVersion"@).unwrap(),
            ir_ref: pin_of(crate::json::member(v, "irRef"@), "irVersion"@).unwrap(),
            classification_ref: text_at(v, "classificationRef"@).unwrap(),
            policy_ref: text_at(v, "policyRef"@).unwrap(),
            generated_by: text_at(v, "generatedBy"@).unwrap(),
            inputs_complete: crate::json::bool_of(crate::json::member(v, "inputsComplete"@)).unwrap(),
            verdict: verdict_at(v).unwrap(),
            flows: rows.0,
            findings: rows.1,
            unknowns: rows.2,
            open_questions: report_questions_at(v)->Ok_0,
        })
    }
}

fn flows_from(items: &Vec<JsonValue>) -> (r: Option<Vec<Flow>>)
    ensures
        match flows_of(items@) {
            Some(fs) => r matches Some(x) && flow_views(x@) == fs,
            None => r is None,
        },
{
    let mut out: Vec<Flow> = Vec::new();
    let mut i: usize = 0;
    while i < items.len()
        invariant
            i <= items@.len(),
            flows_of(items@.take(i as int)) == Some(flow_views(out@)),
        decreases items@.len() - i,
    {
        proof {
            assert(items@.take(i + 1).drop_last() =~= items@.take(i as int));
            assert(items@.take(i + 1).last() == items@[i as int]);
        }
        match Flow::from_wire(&items[i]) {
            Ok(f) => {
                let ghost before = out@;
                out.push(f);
                assert(flow_views(out@) =~= flow_views(before).push(out@.last()@));
            },
            Err(_) => {
                proof { lemma_flows_stay_refused(items@, i as int + 1); }
                return None;
            },
        }
        i = i + 1;
    }
    assert(items@.take(items@.len() as int) =~= items@);
    Some(out)
}

proof fn lemma_flows_stay_refused(items: Seq<JsonValue>, k: int)
    requires
        0 <= k <= items.len(),
        flows_of(items.take(k)) is None,
    ensures
        flows_of(items) is None,
    decreases items.len() - k,
{
    if k == items.len() {
        assert(items.take(k) =~= items);
    } else {
        assert(items.take(k + 1).drop_last() =~= items.take(k));
        lemma_flows_stay_refused(items, k + 1);
    }
}

fn findings_from(items: &Vec<JsonValue>) -> (r: Option<Vec<Finding>>)
    ensures
        match findings_of(items@) {
            Some(fs) => r matches Some(x) && finding_views(x@) == fs,
            None => r is None,
        },
{
    let mut out: Vec<Finding> = Vec::new();
    let mut i: usize = 0;
    while i < items.len()
        invariant
            i <= items@.len(),
            findings_of(items@.take(i as int)) == Some(finding_views(out@)),
        decreases items@.len() - i,
    {
        proof {
            assert(items@.take(i + 1).drop_last() =~= items@.take(i as int));
            assert(items@.take(i + 1).last() == items@[i as int]);
        }
        match Finding::from_wire(&items[i]) {
            Ok(f) => {
                let ghost before = out@;
                out.push(f);
                assert(finding_views(out@) =~= finding_views(before).push(out@.last()@));
            },
            Err(_) => {
                proof { lemma_findings_stay_refused(items@, i as int + 1); }
                return None;
            },
        }
        i = i + 1;
    }
    assert(items@.take(items@.len() as int) =~= items@);
    Some(out)
}

proof fn lemma_findings_stay_refused(items: Seq<JsonValue>, k: int)
    requires
        0 <= k <= items.len(),
        findings_of(items.take(k)) is None,
    ensures
        findings_of(items) is None,
    decreases items.len() - k,
{
    if k == items.len() {
        assert(items.take(k) =~= items);
    } else {
        assert(items.take(k + 1).drop_last() =~= items.take(k));
        lemma_findings_stay_refused(items, k + 1);
    }
}

fn unknowns_from(items: &Vec<JsonValue>) -> (r: Option<Vec<UnknownFlow>>)
    ensures
        match unknowns_of(items@) {
            Some(us) => r matches Some(x) && unknown_views(x@) == us,
            None => r is None,
        },
{
    let mut out: Vec<UnknownFlow> = Vec::new();
    let mut i: usize = 0;
    while i < items.len()
        invariant
            i <= items@.len(),
            unknowns_of(items@.take(i as int)) == Some(unknown_views(out@)),
        decreases items@.len() - i,
    {
        proof {
            assert(items@.take(i + 1).drop_last() =~= items@.take(i as int));
            assert(items@.take(i + 1).last() == items@[i as int]);
        }
        match UnknownFlow::from_wire(&items[i]) {
            Ok(u) => {
                let ghost before = out@;
                out.push(u);
                assert(unknown_views(out@) =~= unknown_views(before).push(out@.last()@));
            },
            Err(_) => {
                proof { lemma_unknowns_stay_refused(items@, i as int + 1); }
                return None;
            },
        }
        i = i + 1;
    }
    assert(items@.take(items@.len() as int) =~= items@);
    Some(out)
}

proof fn lemma_unknowns_stay_refused(items: Seq<JsonValue>, k: int)
    requires
        0 <= k <= items.len(),
        unknowns_of(items.take(k)) is None,
    ensures
        unknowns_of(items) is None,
    decreases items.len() - k,
{
    if k == items.len() {
        assert(items.take(k) =~= items);
    } else {
        assert(items.take(k + 1).drop_last() =~= items.take(k));
        lemma_unknowns_stay_refused(items, k + 1);
    }
}

fn questions_from(items: &Vec<JsonValue>) -> (r: Result<Vec<ReportQuestion>, &'static str>)
    ensures
        match questions_of(items@) {
            Ok(qs) => r matches Ok(x) && question_views(x@) == qs,
            Err(d) => r matches Err(e) && e@ == d,
        },
{
    let mut out: Vec<ReportQuestion> = Vec::new();
    let mut i: usize = 0;
    proof {
        reveal_strlit("open-question-shape");
        reveal_strlit("question-id");
        reveal_strlit("question");
        assert(items@.take(0) =~= Seq::<JsonValue>::empty());
        assert(question_views(out@) =~= Seq::<(Seq<char>, Seq<char>)>::empty());
    }
    while i < items.len()
        invariant
            i <= items@.len(),
            questions_of(items@.take(i as int)) == Ok::<Seq<(Seq<char>, Seq<char>)>, Seq<char>>(question_views(out@)),
        decreases items@.len() - i,
    {
        proof {
            assert(items@.take(i + 1).drop_last() =~= items@.take(i as int));
            assert(items@.take(i + 1).last() == items@[i as int]);
        }
        let item = &items[i];
        let refused: &'static str = match item {
            JsonValue::Object(_) => match crate::json::get_text(item, "id") {
                Some(id_text) => match QuestionId::parse(id_text) {
                    Ok(id) => match crate::json::get_text(item, "question") {
                        Some(q_text) => match BoundedText::parse(q_text) {
                            Ok(question) => {
                                let ghost before = out@;
                                out.push(ReportQuestion { id, question });
                                assert(question_views(out@) =~= question_views(before).push(out@.last()@));
                                i = i + 1;
                                continue;
                            },
                            Err(_) => "question",
                        },
                        None => "question",
                    },
                    Err(_) => "question-id",
                },
                None => "question-id",
            },
            _ => "open-question-shape",
        };
        proof { lemma_questions_stay_refused(items@, i as int + 1); }
        return Err(refused);
    }
    assert(items@.take(items@.len() as int) =~= items@);
    Ok(out)
}

proof fn lemma_questions_stay_refused(items: Seq<JsonValue>, k: int)
    requires
        0 <= k <= items.len(),
        questions_of(items.take(k)) is Err,
    ensures
        questions_of(items) == questions_of(items.take(k)),
    decreases items.len() - k,
{
    if k == items.len() {
        assert(items.take(k) =~= items);
    } else {
        assert(items.take(k + 1).drop_last() =~= items.take(k));
        lemma_questions_stay_refused(items, k + 1);
    }
}

fn pin_from(v: Option<&JsonValue>, version_key: &str) -> (r: Option<(String, Sha256Digest)>)
    ensures
        match pin_of(match v { Some(x) => Some(*x), None => None }, version_key@) {
            Some(p) => r matches Some(x) && x.0@ == p.0 && x.1@ == p.1,
            None => r is None,
        },
{
    let o = match v {
        Some(o) => o,
        None => return None,
    };
    match o {
        JsonValue::Object(_) => {},
        _ => return None,
    }
    let version = match crate::json::get_text(o, version_key) {
        Some(t) => t,
        None => return None,
    };
    let digest = match crate::json::get_text(o, "digest") {
        Some(t) => match Sha256Digest::parse(t) {
            Ok(d) => d,
            Err(_) => return None,
        },
        None => return None,
    };
    Some((version.to_owned(), digest))
}

fn digest_from(v: &JsonValue, key: &str) -> (r: Option<Sha256Digest>)
    ensures
        match digest_at(*v, key@) {
            Some(d) => r matches Some(x) && x@ == d,
            None => r is None,
        },
{
    match crate::json::get_text(v, key) {
        Some(t) => match Sha256Digest::parse(t) {
            Ok(d) => Some(d),
            Err(_) => None,
        },
        None => None,
    }
}

/// Re-read one exported report document: the closed member set, the
/// schema and contract identity, every flow, finding, and unknown row,
/// the revision and custody pins, the open questions, and the verdict
/// are validated in that order; the first failed check is the refusal.
/// A re-read report is for diffing, never input to analysis.
pub fn report_from_value(json: &JsonValue) -> (r: Result<Report, DiagnosticSet>)
    ensures
        match report_outcome(*json) {
            Ok(rv) => r matches Ok(rep) && rep@ == rv,
            Err(d) => r matches Err(set) && classification_set(set@, "classification.unknown-kind"@, "report-"@ + d, None),
        },
{
    proof {
        reveal_strlit("pass");
        reveal_strlit("denied");
    }
    match json {
        JsonValue::Object(_) => {},
        _ => return Err(super::diagnostic::document_invalid("top-level-shape", None)),
    }
    if !crate::json::check_members(json, &report_key_list()) {
        return Err(super::diagnostic::document_invalid("unknown-field", None));
    }
    match crate::json::get_text(json, "schemaVersion") {
        Some(t) => if !crate::text::str_eq(t, SCHEMA_VERSION) {
            return Err(super::diagnostic::document_invalid("schema-version", None));
        },
        None => return Err(super::diagnostic::document_invalid("schema-version", None)),
    }
    match crate::json::get_text(json, "identity") {
        Some(t) => if !crate::text::str_eq(t, IDENTITY) {
            return Err(super::diagnostic::document_invalid("contract-identity", None));
        },
        None => return Err(super::diagnostic::document_invalid("contract-identity", None)),
    }
    let flow_items = match crate::json::get_array(json, "flows") {
        Some(items) => items,
        None => return Err(super::diagnostic::document_invalid("flow-list", None)),
    };
    if flow_items.len() > super::version::MAX_FLOWS {
        return Err(super::diagnostic::document_invalid("flow-list", None));
    }
    let flows = match flows_from(flow_items) {
        Some(x) => x,
        None => return Err(super::diagnostic::document_invalid("flow-row", None)),
    };
    let finding_items = match crate::json::get_array(json, "findings") {
        Some(items) => items,
        None => return Err(super::diagnostic::document_invalid("finding-list", None)),
    };
    if finding_items.len() > super::version::MAX_FINDINGS {
        return Err(super::diagnostic::document_invalid("finding-list", None));
    }
    let findings = match findings_from(finding_items) {
        Some(x) => x,
        None => return Err(super::diagnostic::document_invalid("finding-row", None)),
    };
    let unknown_items = match crate::json::get_array(json, "unknowns") {
        Some(items) => items,
        None => return Err(super::diagnostic::document_invalid("unknown-list", None)),
    };
    if unknown_items.len() > super::version::MAX_UNKNOWNS {
        return Err(super::diagnostic::document_invalid("unknown-list", None));
    }
    let unknowns = match unknowns_from(unknown_items) {
        Some(x) => x,
        None => return Err(super::diagnostic::document_invalid("unknown-row", None)),
    };
    let report_revision = match crate::json::get_text(json, "reportRevision") {
        Some(t) => if crate::ids::check_revision(t) {
            t.to_owned()
        } else {
            return Err(super::diagnostic::document_invalid("report-revision", None));
        },
        None => return Err(super::diagnostic::document_invalid("report-revision", None)),
    };
    let project_id = match crate::json::get_text(json, "projectId") {
        Some(t) => match SemanticId::parse_root(t) {
            Ok(id) => id,
            Err(_) => return Err(super::diagnostic::document_invalid("project-id", None)),
        },
        None => return Err(super::diagnostic::document_invalid("project-id", None)),
    };
    let model_ref = match pin_from(crate::json::get(json, "modelRef"), "modelVersion") {
        Some(p) => p,
        None => return Err(super::diagnostic::document_invalid("model-ref", None)),
    };
    let ir_ref = match pin_from(crate::json::get(json, "irRef"), "irVersion") {
        Some(p) => p,
        None => return Err(super::diagnostic::document_invalid("ir-ref", None)),
    };
    let classification_ref = match digest_from(json, "classificationRef") {
        Some(d) => d,
        None => return Err(super::diagnostic::document_invalid("classification-ref", None)),
    };
    let policy_ref = match digest_from(json, "policyRef") {
        Some(d) => d,
        None => return Err(super::diagnostic::document_invalid("policy-ref", None)),
    };
    let generated_by = match crate::json::get_text(json, "generatedBy") {
        Some(t) => {
            let n = t.as_bytes().len();
            if n == 0 || n > 64 {
                return Err(super::diagnostic::document_invalid("generated-by", None));
            }
            t.to_owned()
        },
        None => return Err(super::diagnostic::document_invalid("generated-by", None)),
    };
    let inputs_complete = match crate::json::get_bool(json, "inputsComplete") {
        Some(b) => b,
        None => return Err(super::diagnostic::document_invalid("inputs-complete", None)),
    };
    let open_questions = match crate::json::get_array(json, "openQuestions") {
        None => {
            let q: Vec<ReportQuestion> = Vec::new();
            assert(question_views(q@) =~= Seq::<(Seq<char>, Seq<char>)>::empty());
            q
        },
        Some(items) => {
            if items.len() > super::version::MAX_OPEN_QUESTIONS {
                return Err(super::diagnostic::document_invalid("open-question-list", None));
            }
            match questions_from(items) {
                Ok(q) => q,
                Err(d) => return Err(super::diagnostic::document_invalid(d, None)),
            }
        },
    };
    let verdict = match crate::json::get_text(json, "verdict") {
        Some(t) => if crate::text::str_eq(t, "pass") {
            Verdict::Pass
        } else if crate::text::str_eq(t, "denied") {
            Verdict::Denied
        } else {
            return Err(super::diagnostic::document_invalid("verdict", None));
        },
        None => return Err(super::diagnostic::document_invalid("verdict", None)),
    };
    let report = Report {
        report_revision,
        project_id,
        model_ref,
        ir_ref,
        classification_ref,
        policy_ref,
        generated_by,
        inputs_complete,
        verdict,
        flows,
        findings,
        unknowns,
        open_questions,
    };
    Ok(report)
}

} // verus!
