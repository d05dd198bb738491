//! The canonical export of the classification attachment: its closed
//! wire form, written as compact JSON with byte-sorted keys and no
//! trailing LF, bounded by the export limit, and its `sha256:` digest.

use vstd::prelude::*;
use crate::json::{JsonValue, MemberShape, flag_is, members_are, object_is, optional_member, push_member,
    rendered_json, tree, render_json, text_is, text_value, texts_are, texts_of, determines, shapes_determine,
    lemma_object_determined, lemma_text_is_determines, lemma_flag_is_determines, lemma_texts_are_determines,
    lemma_shapes_join, lemma_optional_determines};
use crate::text::byte_len;
use crate::digest::{digest_text, sha256_digest};
use crate::diagnostics::set::DiagnosticSet;
use super::diagnostic::{classification_set, document_invalid};
use super::types::{Condition, DataKind, Label, Profile};
use super::version::{IDENTITY, MAX_EXPORT_BYTES, SCHEMA_VERSION};
use super::policy::{ActorRef, CrossTenantMode, DestinationKind, KindRule, KindRuleView, MaskingStrategy,
    PolicyAttachment, PolicyOpenQuestion, PolicyOpenQuestionView, PolicyView, SinkCeiling, SinkName,
    POLICY_IDENTITY, POLICY_SCHEMA_VERSION, policy_question_views, rule_views, sink_views, token_texts};
use super::types::ContractRef;
use super::wire::{Attachment, AttachmentView, Classification, ClassificationView, Declassification,
    DeclassificationView, OpenQuestion, OpenQuestionView, classification_views, grant_views, label_views,
    question_views};

verus! {

// ---------------------------------------------------------------------
// The wire shapes

/// An object whose members are exactly the shapes.
pub open spec fn object_shaped(want: Seq<MemberShape>) -> spec_fn(JsonValue) -> bool {
    |v: JsonValue| object_is(v, want)
}

/// A pin `{digest, <version key>}`.
pub open spec fn pin_shape(version_key: Seq<char>, pin: (Seq<char>, Seq<char>)) -> Seq<MemberShape> {
    seq![("digest"@, text_is(pin.1)), (version_key, text_is(pin.0))]
}

/// The defaults `{profile, unclassifiedFields, unclassifiedPayloads}`.
pub open spec fn defaults_shape(d: (Profile, DataKind, DataKind)) -> Seq<MemberShape> {
    seq![("profile"@, text_is(d.0.spec_text())), ("unclassifiedFields"@, text_is(d.1.spec_text())),
        ("unclassifiedPayloads"@, text_is(d.2.spec_text()))]
}

/// One classification entry; `labels`, `retentionClass` and
/// `tenantScoped` appear only when non-empty, present and set.
pub open spec fn classification_shape(c: ClassificationView) -> Seq<MemberShape> {
    seq![("kind"@, text_is(c.kind.spec_text()))]
        + optional_member(c.labels.len() > 0, ("labels"@, texts_are(c.labels)))
        + optional_member(c.retention_class is Some, ("retentionClass"@, text_is(c.retention_class.unwrap())))
        + seq![("subject"@, text_is(c.subject))]
        + optional_member(c.tenant_scoped, ("tenantScoped"@, flag_is(true)))
}

/// The wire spellings of condition tokens.
pub open spec fn condition_texts(cs: Seq<Condition>) -> Seq<Seq<char>> {
    cs.map_values(|c: Condition| c.spec_text())
}

/// One grant; `conditions` and `expiresAt` appear only when non-empty
/// and present.
pub open spec fn grant_shape(g: DeclassificationView) -> Seq<MemberShape> {
    seq![("approvedBy"@, text_is(g.approved_by))]
        + optional_member(g.conditions.len() > 0, ("conditions"@, texts_are(condition_texts(g.conditions))))
        + optional_member(g.expires_at is Some, ("expiresAt"@, text_is(g.expires_at.unwrap())))
        + seq![("fromKind"@, text_is(g.from_kind.spec_text())), ("id"@, text_is(g.id)),
            ("justification"@, text_is(g.justification)), ("subject"@, text_is(g.subject)),
            ("toKind"@, text_is(g.to_kind.spec_text()))]
}

/// One open question; `subject` appears only when present.
pub open spec fn question_shape(q: OpenQuestionView) -> Seq<MemberShape> {
    seq![("id"@, text_is(q.id)), ("question"@, text_is(q.question))]
        + optional_member(q.subject is Some, ("subject"@, text_is(q.subject.unwrap())))
}

/// An array of classification entries, in order.
pub open spec fn classifications_are(cs: Seq<ClassificationView>) -> spec_fn(JsonValue) -> bool {
    |v: JsonValue| v matches JsonValue::Array(items) && items@.len() == cs.len()
        && forall|i: int| 0 <= i < cs.len() ==> object_is(#[trigger] items@[i], classification_shape(cs[i]))
}

/// An array of grants, in order.
pub open spec fn grants_are(gs: Seq<DeclassificationView>) -> spec_fn(JsonValue) -> bool {
    |v: JsonValue| v matches JsonValue::Array(items) && items@.len() == gs.len()
        && forall|i: int| 0 <= i < gs.len() ==> object_is(#[trigger] items@[i], grant_shape(gs[i]))
}

/// An array of open questions, in order.
pub open spec fn questions_are(qs: Seq<OpenQuestionView>) -> spec_fn(JsonValue) -> bool {
    |v: JsonValue| v matches JsonValue::Array(items) && items@.len() == qs.len()
        && forall|i: int| 0 <= i < qs.len() ==> object_is(#[trigger] items@[i], question_shape(qs[i]))
}

// ---------------------------------------------------------------------
// Each shape pins the written content

proof fn lemma_object_shaped_determines(want: Seq<MemberShape>)
    requires
        shapes_determine(want),
    ensures
        determines(object_shaped(want)),
{
    assert forall|v1: JsonValue, v2: JsonValue| (object_shaped(want))(v1) && (object_shaped(want))(v2) implies tree(v1) == tree(v2) by {
        lemma_object_determined(v1, v2, want);
    }
}

proof fn lemma_pin_shape_determines(version_key: Seq<char>, pin: (Seq<char>, Seq<char>))
    ensures
        shapes_determine(pin_shape(version_key, pin)),
{
    lemma_text_is_determines(pin.0);
    lemma_text_is_determines(pin.1);
}

proof fn lemma_defaults_shape_determines(d: (Profile, DataKind, DataKind))
    ensures
        shapes_determine(defaults_shape(d)),
{
    lemma_text_is_determines(d.0.spec_text());
    lemma_text_is_determines(d.1.spec_text());
    lemma_text_is_determines(d.2.spec_text());
}

proof fn lemma_one_determines(shape: MemberShape)
    requires
        determines(shape.1),
    ensures
        shapes_determine(seq![shape]),
{
    assert(seq![shape][0] == shape);
}

proof fn lemma_classification_shape_determines(c: ClassificationView)
    ensures
        shapes_determine(classification_shape(c)),
{
    lemma_text_is_determines(c.kind.spec_text());
    lemma_texts_are_determines(c.labels);
    lemma_text_is_determines(c.retention_class.unwrap());
    lemma_text_is_determines(c.subject);
    lemma_flag_is_determines(true);
    let a = seq![("kind"@, text_is(c.kind.spec_text()))];
    let b = optional_member(c.labels.len() > 0, ("labels"@, texts_are(c.labels)));
    let d = optional_member(c.retention_class is Some, ("retentionClass"@, text_is(c.retention_class.unwrap())));
    let e = seq![("subject"@, text_is(c.subject))];
    let f = optional_member(c.tenant_scoped, ("tenantScoped"@, flag_is(true)));
    lemma_one_determines(("kind"@, text_is(c.kind.spec_text())));
    lemma_optional_determines(c.labels.len() > 0, ("labels"@, texts_are(c.labels)));
    lemma_optional_determines(c.retention_class is Some, ("retentionClass"@, text_is(c.retention_class.unwrap())));
    lemma_one_determines(("subject"@, text_is(c.subject)));
    lemma_optional_determines(c.tenant_scoped, ("tenantScoped"@, flag_is(true)));
    lemma_shapes_join(a, b);
    lemma_shapes_join(a + b, d);
    lemma_shapes_join(a + b + d, e);
    lemma_shapes_join(a + b + d + e, f);
}

proof fn lemma_grant_shape_determines(g: DeclassificationView)
    ensures
        shapes_determine(grant_shape(g)),
{
    lemma_text_is_determines(g.approved_by);
    lemma_texts_are_determines(condition_texts(g.conditions));
    lemma_text_is_determines(g.expires_at.unwrap());
    lemma_text_is_determines(g.from_kind.spec_text());
    lemma_text_is_determines(g.id);
    lemma_text_is_determines(g.justification);
    lemma_text_is_determines(g.subject);
    lemma_text_is_determines(g.to_kind.spec_text());
    let a = seq![("approvedBy"@, text_is(g.approved_by))];
    let b = optional_member(g.conditions.len() > 0, ("conditions"@, texts_are(condition_texts(g.conditions))));
    let d = optional_member(g.expires_at is Some, ("expiresAt"@, text_is(g.expires_at.unwrap())));
    let e = seq![("fromKind"@, text_is(g.from_kind.spec_text())), ("id"@, text_is(g.id)),
        ("justification"@, text_is(g.justification)), ("subject"@, text_is(g.subject)),
        ("toKind"@, text_is(g.to_kind.spec_text()))];
    lemma_one_determines(("approvedBy"@, text_is(g.approved_by)));
    lemma_optional_determines(g.conditions.len() > 0, ("conditions"@, texts_are(condition_texts(g.conditions))));
    lemma_optional_determines(g.expires_at is Some, ("expiresAt"@, text_is(g.expires_at.unwrap())));
    lemma_shapes_join(a, b);
    lemma_shapes_join(a + b, d);
    lemma_shapes_join(a + b + d, e);
}

proof fn lemma_question_shape_determines(q: OpenQuestionView)
    ensures
        shapes_determine(question_shape(q)),
{
    lemma_text_is_determines(q.id);
    lemma_text_is_determines(q.question);
    lemma_text_is_determines(q.subject.unwrap());
    let a = seq![("id"@, text_is(q.id)), ("question"@, text_is(q.question))];
    let b = optional_member(q.subject is Some, ("subject"@, text_is(q.subject.unwrap())));
    lemma_optional_determines(q.subject is Some, ("subject"@, text_is(q.subject.unwrap())));
    lemma_shapes_join(a, b);
}

proof fn lemma_classifications_determine(cs: Seq<ClassificationView>)
    ensures
        determines(classifications_are(cs)),
{
    assert forall|v1: JsonValue, v2: JsonValue| (classifications_are(cs))(v1) && (classifications_are(cs))(v2) implies tree(v1) == tree(v2) by {
        let a = v1->Array_0@;
        let b = v2->Array_0@;
        assert forall|i: int| 0 <= i < a.len() implies #[trigger] crate::json::trees(a)[i] == crate::json::trees(b)[i] by {
            lemma_classification_shape_determines(cs[i]);
            lemma_object_determined(a[i], b[i], classification_shape(cs[i]));
        }
        assert(crate::json::trees(a) =~= crate::json::trees(b));
    }
}

proof fn lemma_grants_determine(gs: Seq<DeclassificationView>)
    ensures
        determines(grants_are(gs)),
{
    assert forall|v1: JsonValue, v2: JsonValue| (grants_are(gs))(v1) && (grants_are(gs))(v2) implies tree(v1) == tree(v2) by {
        let a = v1->Array_0@;
        let b = v2->Array_0@;
        assert forall|i: int| 0 <= i < a.len() implies #[trigger] crate::json::trees(a)[i] == crate::json::trees(b)[i] by {
            lemma_grant_shape_determines(gs[i]);
            lemma_object_determined(a[i], b[i], grant_shape(gs[i]));
        }
        assert(crate::json::trees(a) =~= crate::json::trees(b));
    }
}

proof fn lemma_questions_determine(qs: Seq<OpenQuestionView>)
    ensures
        determines(questions_are(qs)),
{
    assert forall|v1: JsonValue, v2: JsonValue| (questions_are(qs))(v1) && (questions_are(qs))(v2) implies tree(v1) == tree(v2) by {
        let a = v1->Array_0@;
        let b = v2->Array_0@;
        assert forall|i: int| 0 <= i < a.len() implies #[trigger] crate::json::trees(a)[i] == crate::json::trees(b)[i] by {
            lemma_question_shape_determines(qs[i]);
            lemma_object_determined(a[i], b[i], question_shape(qs[i]));
        }
        assert(crate::json::trees(a) =~= crate::json::trees(b));
    }
}

/// The closed wire form of an attachment, members in byte order of
/// their names.
pub open spec fn attachment_shape(a: AttachmentView) -> Seq<MemberShape> {
    seq![
        ("attachmentRevision"@, text_is(a.attachment_revision)),
        ("classifications"@, classifications_are(a.classifications)),
        ("declassifications"@, grants_are(a.declassifications)),
        ("defaults"@, object_shaped(defaults_shape(a.defaults))),
        ("identity"@, text_is(IDENTITY@)),
        ("irRef"@, object_shaped(pin_shape("irVersion"@, a.ir_ref))),
        ("modelRef"@, object_shaped(pin_shape("modelVersion"@, a.model_ref))),
        ("openQuestions"@, questions_are(a.open_questions)),
        ("projectId"@, text_is(a.project_id)),
        ("schemaVersion"@, text_is(SCHEMA_VERSION@)),
    ]
}

// ---------------------------------------------------------------------
// Writing the wire form

/// A pin object.
pub fn pin_wire(version_key: &str, version: &str, digest: &str) -> (r: JsonValue)
    ensures
        object_is(r, pin_shape(version_key@, (version@, digest@))),
{
    let mut fields: Vec<(String, JsonValue)> = Vec::new();
    let ghost f0 = fields@;
    push_member(&mut fields, "digest", text_value(digest));
    let ghost f1 = fields@;
    push_member(&mut fields, version_key, text_value(version));
    proof {
        let want = pin_shape(version_key@, (version@, digest@));
        assert(f1 == f0.push(f1.last()));
        assert(fields@ == f1.push(fields@.last()));
        assert(fields@[0] == f1[0]);
        assert(members_are(fields@, want));
    }
    JsonValue::Object(fields)
}

/// An array of the given texts.
fn texts_wire(texts: Vec<&str>) -> (r: JsonValue)
    ensures
        texts_are(texts@.map_values(|t: &str| t@))(r),
{
    let mut items: Vec<JsonValue> = Vec::new();
    let mut i: usize = 0;
    while i < texts.len()
        invariant
            i <= texts@.len(),
            items@.len() == i,
            forall|j: int| 0 <= j < i ==> crate::json::text_of(Some(#[trigger] items@[j])) == Some(texts@[j]@),
        decreases texts@.len() - i,
    {
        items.push(text_value(texts[i]));
        i = i + 1;
    }
    let r = JsonValue::Array(items);
    proof {
        assert(texts_of(items@, texts@.map_values(|t: &str| t@)));
    }
    r
}

/// The label texts of an entry.
fn label_texts(labels: &[Label]) -> (r: Vec<&str>)
    ensures
        r@.map_values(|t: &str| t@) == label_views(labels@),
{
    let mut out: Vec<&str> = Vec::new();
    let mut i: usize = 0;
    while i < labels.len()
        invariant
            i <= labels@.len(),
            out@.len() == i,
            forall|j: int| 0 <= j < i ==> (#[trigger] out@[j])@ == labels@[j]@,
        decreases labels@.len() - i,
    {
        out.push(labels[i].as_str());
        i = i + 1;
    }
    assert(out@.map_values(|t: &str| t@) =~= label_views(labels@));
    out
}

/// The condition tokens of a grant.
fn condition_list(conditions: &[Condition]) -> (r: Vec<&str>)
    ensures
        r@.map_values(|t: &str| t@) == condition_texts(conditions@),
{
    let mut out: Vec<&'static str> = Vec::new();
    let mut i: usize = 0;
    while i < conditions.len()
        invariant
            i <= conditions@.len(),
            out@.len() == i,
            forall|j: int| 0 <= j < i ==> (#[trigger] out@[j])@ == conditions@[j].spec_text(),
        decreases conditions@.len() - i,
    {
        out.push(conditions[i].as_str());
        i = i + 1;
    }
    assert(out@.map_values(|t: &str| t@) =~= condition_texts(conditions@));
    out
}

/// One classification entry's wire object.
pub fn classification_wire(c: &Classification) -> (r: JsonValue)
    ensures
        object_is(r, classification_shape(c@)),
{
    let mut fields: Vec<(String, JsonValue)> = Vec::new();
    let ghost mut want: Seq<MemberShape> = Seq::empty();
    let ghost mut f = fields@;
    push_member(&mut fields, "kind", text_value(c.kind().as_str()));
    proof {
        crate::json::lemma_members_push(f, want, fields@.last(), ("kind"@, text_is(c@.kind.spec_text())));
        want = want.push(("kind"@, text_is(c@.kind.spec_text())));
        f = fields@;
    }
    let labels = c.labels();
    if labels.len() > 0 {
        let texts = label_texts(labels);
        push_member(&mut fields, "labels", texts_wire(texts));
        proof {
            crate::json::lemma_members_push(f, want, fields@.last(), ("labels"@, texts_are(c@.labels)));
            want = want.push(("labels"@, texts_are(c@.labels)));
            f = fields@;
        }
    }
    match c.retention_class() {
        Some(rc) => {
            push_member(&mut fields, "retentionClass", text_value(rc.as_str()));
            proof {
                let w = ("retentionClass"@, text_is(c@.retention_class.unwrap()));
                crate::json::lemma_members_push(f, want, fields@.last(), w);
                want = want.push(w);
                f = fields@;
            }
        },
        None => {},
    }
    push_member(&mut fields, "subject", text_value(c.subject().as_str()));
    proof {
        crate::json::lemma_members_push(f, want, fields@.last(), ("subject"@, text_is(c@.subject)));
        want = want.push(("subject"@, text_is(c@.subject)));
        f = fields@;
    }
    if c.tenant_scoped() {
        push_member(&mut fields, "tenantScoped", JsonValue::Bool(true));
        proof {
            crate::json::lemma_members_push(f, want, fields@.last(), ("tenantScoped"@, flag_is(true)));
            want = want.push(("tenantScoped"@, flag_is(true)));
        }
    }
    proof {
        assert(want =~= classification_shape(c@));
    }
    JsonValue::Object(fields)
}

/// One grant's wire object.
pub fn grant_wire(g: &Declassification) -> (r: JsonValue)
    ensures
        object_is(r, grant_shape(g@)),
{
    let mut fields: Vec<(String, JsonValue)> = Vec::new();
    let ghost mut want: Seq<MemberShape> = Seq::empty();
    let ghost mut f = fields@;
    push_member(&mut fields, "approvedBy", text_value(g.approved_by().as_str()));
    proof {
        let w = ("approvedBy"@, text_is(g@.approved_by));
        crate::json::lemma_members_push(f, want, fields@.last(), w);
        want = want.push(w);
        f = fields@;
    }
    let conditions = g.conditions();
    if conditions.len() > 0 {
        let texts = condition_list(conditions);
        push_member(&mut fields, "conditions", texts_wire(texts));
        proof {
            let w = ("conditions"@, texts_are(condition_texts(g@.conditions)));
            crate::json::lemma_members_push(f, want, fields@.last(), w);
            want = want.push(w);
            f = fields@;
        }
    }
    match g.expires_at() {
        Some(t) => {
            push_member(&mut fields, "expiresAt", text_value(t.as_str()));
            proof {
                let w = ("expiresAt"@, text_is(g@.expires_at.unwrap()));
                crate::json::lemma_members_push(f, want, fields@.last(), w);
                want = want.push(w);
                f = fields@;
            }
        },
        None => {},
    }
    push_member(&mut fields, "fromKind", text_value(g.from_kind().as_str()));
    proof {
        let w = ("fromKind"@, text_is(g@.from_kind.spec_text()));
        crate::json::lemma_members_push(f, want, fields@.last(), w);
        want = want.push(w);
        f = fields@;
    }
    push_member(&mut fields, "id", text_value(g.id().as_str()));
    proof {
        let w = ("id"@, text_is(g@.id));
        crate::json::lemma_members_push(f, want, fields@.last(), w);
        want = want.push(w);
        f = fields@;
    }
    push_member(&mut fields, "justification", text_value(g.justification().as_str()));
    proof {
        let w = ("justification"@, text_is(g@.justification));
        crate::json::lemma_members_push(f, want, fields@.last(), w);
        want = want.push(w);
        f = fields@;
    }
    push_member(&mut fields, "subject", text_value(g.subject().as_str()));
    proof {
        let w = ("subject"@, text_is(g@.subject));
        crate::json::lemma_members_push(f, want, fields@.last(), w);
        want = want.push(w);
        f = fields@;
    }
    push_member(&mut fields, "toKind", text_value(g.to_kind().as_str()));
    proof {
        let w = ("toKind"@, text_is(g@.to_kind.spec_text()));
        crate::json::lemma_members_push(f, want, fields@.last(), w);
        want = want.push(w);
        assert(want =~= grant_shape(g@));
    }
    JsonValue::Object(fields)
}

/// One open question's wire object.
pub fn question_wire(q: &OpenQuestion) -> (r: JsonValue)
    ensures
        object_is(r, question_shape(q@)),
{
    let mut fields: Vec<(String, JsonValue)> = Vec::new();
    let ghost mut want: Seq<MemberShape> = Seq::empty();
    let ghost mut f = fields@;
    push_member(&mut fields, "id", text_value(q.id().as_str()));
    proof {
        let w = ("id"@, text_is(q@.id));
        crate::json::lemma_members_push(f, want, fields@.last(), w);
        want = want.push(w);
        f = fields@;
    }
    push_member(&mut fields, "question", text_value(q.question().as_str()));
    proof {
        let w = ("question"@, text_is(q@.question));
        crate::json::lemma_members_push(f, want, fields@.last(), w);
        want = want.push(w);
        f = fields@;
    }
    match q.subject() {
        Some(s) => {
            push_member(&mut fields, "subject", text_value(s.as_str()));
            proof {
                let w = ("subject"@, text_is(q@.subject.unwrap()));
                crate::json::lemma_members_push(f, want, fields@.last(), w);
                want = want.push(w);
            }
        },
        None => {},
    }
    proof {
        assert(want =~= question_shape(q@));
    }
    JsonValue::Object(fields)
}


/// The classification entries' wire array.
fn classifications_wire(cs: &[Classification]) -> (r: JsonValue)
    ensures
        classifications_are(classification_views(cs@))(r),
{
    let mut items: Vec<JsonValue> = Vec::new();
    let mut i: usize = 0;
    while i < cs.len()
        invariant
            i <= cs@.len(),
            items@.len() == i,
            forall|j: int| 0 <= j < i ==> object_is(#[trigger] items@[j], classification_shape(cs@[j]@)),
        decreases cs@.len() - i,
    {
        items.push(classification_wire(&cs[i]));
        i = i + 1;
    }
    JsonValue::Array(items)
}

/// The grants' wire array.
fn grants_wire(gs: &[Declassification]) -> (r: JsonValue)
    ensures
        grants_are(grant_views(gs@))(r),
{
    let mut items: Vec<JsonValue> = Vec::new();
    let mut i: usize = 0;
    while i < gs.len()
        invariant
            i <= gs@.len(),
            items@.len() == i,
            forall|j: int| 0 <= j < i ==> object_is(#[trigger] items@[j], grant_shape(gs@[j]@)),
        decreases gs@.len() - i,
    {
        items.push(grant_wire(&gs[i]));
        i = i + 1;
    }
    JsonValue::Array(items)
}

/// The open questions' wire array.
fn questions_wire(qs: &[OpenQuestion]) -> (r: JsonValue)
    ensures
        questions_are(question_views(qs@))(r),
{
    let mut items: Vec<JsonValue> = Vec::new();
    let mut i: usize = 0;
    while i < qs.len()
        invariant
            i <= qs@.len(),
            items@.len() == i,
            forall|j: int| 0 <= j < i ==> object_is(#[trigger] items@[j], question_shape(qs@[j]@)),
        decreases qs@.len() - i,
    {
        items.push(question_wire(&qs[i]));
        i = i + 1;
    }
    JsonValue::Array(items)
}

/// The defaults' wire object.
fn defaults_wire(profile: Profile, fields_kind: DataKind, payloads_kind: DataKind) -> (r: JsonValue)
    ensures
        object_is(r, defaults_shape((profile, fields_kind, payloads_kind))),
{
    let mut fields: Vec<(String, JsonValue)> = Vec::new();
    let ghost mut want: Seq<MemberShape> = Seq::empty();
    let ghost mut f = fields@;
    push_member(&mut fields, "profile", text_value(profile.as_str()));
    proof {
        let w = ("profile"@, text_is(profile.spec_text()));
        crate::json::lemma_members_push(f, want, fields@.last(), w);
        want = want.push(w);
        f = fields@;
    }
    push_member(&mut fields, "unclassifiedFields", text_value(fields_kind.as_str()));
    proof {
        let w = ("unclassifiedFields"@, text_is(fields_kind.spec_text()));
        crate::json::lemma_members_push(f, want, fields@.last(), w);
        want = want.push(w);
        f = fields@;
    }
    push_member(&mut fields, "unclassifiedPayloads", text_value(payloads_kind.as_str()));
    proof {
        let w = ("unclassifiedPayloads"@, text_is(payloads_kind.spec_text()));
        crate::json::lemma_members_push(f, want, fields@.last(), w);
        want = want.push(w);
        assert(want =~= defaults_shape((profile, fields_kind, payloads_kind)));
    }
    JsonValue::Object(fields)
}

impl Attachment {
    /// The closed wire form of the attachment, members in byte order of
    /// their names.
    pub fn wire(&self) -> (r: JsonValue)
        ensures
            object_is(r, attachment_shape(self@)),
    {
        let mut fields: Vec<(String, JsonValue)> = Vec::new();
        let ghost mut want: Seq<MemberShape> = Seq::empty();
        let ghost mut f = fields@;
        let ghost a = self@;
        push_member(&mut fields, "attachmentRevision", text_value(self.attachment_revision()));
        proof {
            let w = ("attachmentRevision"@, text_is(a.attachment_revision));
            crate::json::lemma_members_push(f, want, fields@.last(), w);
            want = want.push(w);
            f = fields@;
        }
        push_member(&mut fields, "classifications", classifications_wire(self.classifications()));
        proof {
            let w = ("classifications"@, classifications_are(a.classifications));
            crate::json::lemma_members_push(f, want, fields@.last(), w);
            want = want.push(w);
            f = fields@;
        }
        push_member(&mut fields, "declassifications", grants_wire(self.declassifications()));
        proof {
            let w = ("declassifications"@, grants_are(a.declassifications));
            crate::json::lemma_members_push(f, want, fields@.last(), w);
            want = want.push(w);
            f = fields@;
        }
        let d = self.defaults();
        push_member(&mut fields, "defaults", defaults_wire(d.profile(), d.unclassified_fields(), d.unclassified_payloads()));
        proof {
            let w = ("defaults"@, object_shaped(defaults_shape(a.defaults)));
            crate::json::lemma_members_push(f, want, fields@.last(), w);
            want = want.push(w);
            f = fields@;
        }
        push_member(&mut fields, "identity", text_value(IDENTITY));
        proof {
            let w = ("identity"@, text_is(IDENTITY@));
            crate::json::lemma_members_push(f, want, fields@.last(), w);
            want = want.push(w);
            f = fields@;
        }
        let ir = self.ir_ref();
        push_member(&mut fields, "irRef", pin_wire("irVersion", ir.0.as_str(), ir.1.as_str()));
        proof {
            let w = ("irRef"@, object_shaped(pin_shape("irVersion"@, a.ir_ref)));
            crate::json::lemma_members_push(f, want, fields@.last(), w);
            want = want.push(w);
            f = fields@;
        }
        let model = self.model_ref();
        push_member(&mut fields, "modelRef", pin_wire("modelVersion", model.0.as_str(), model.1.as_str()));
        proof {
            let w = ("modelRef"@, object_shaped(pin_shape("modelVersion"@, a.model_ref)));
            crate::json::lemma_members_push(f, want, fields@.last(), w);
            want = want.push(w);
            f = fields@;
        }
        push_member(&mut fields, "openQuestions", questions_wire(self.open_questions()));
        proof {
            let w = ("openQuestions"@, questions_are(a.open_questions));
            crate::json::lemma_members_push(f, want, fields@.last(), w);
            want = want.push(w);
            f = fields@;
        }
        push_member(&mut fields, "projectId", text_value(self.project_id().as_str()));
        proof {
            let w = ("projectId"@, text_is(a.project_id));
            crate::json::lemma_members_push(f, want, fields@.last(), w);
            want = want.push(w);
            f = fields@;
        }
        push_member(&mut fields, "schemaVersion", text_value(SCHEMA_VERSION));
        proof {
            let w = ("schemaVersion"@, text_is(SCHEMA_VERSION@));
            crate::json::lemma_members_push(f, want, fields@.last(), w);
            want = want.push(w);
            assert(want =~= attachment_shape(a));
        }
        JsonValue::Object(fields)
    }
}

// ---------------------------------------------------------------------
// The canonical export

/// The export-limit refusal.
pub open spec fn export_refusal(e: Seq<crate::diagnostics::item::DiagnosticView>) -> bool {
    classification_set(e, "classification.unknown-kind"@, "canonical-bytes"@, None)
}

/// The writer's compact text for a wire value, or the export-limit
/// refusal when its UTF-8 bytes exceed the export bound.
pub fn export_text(wire: &JsonValue) -> (r: Result<String, DiagnosticSet>)
    ensures
        match r {
            Ok(s) => s@ == rendered_json(tree(*wire)) && byte_len(s@) <= MAX_EXPORT_BYTES,
            Err(e) => byte_len(rendered_json(tree(*wire))) > MAX_EXPORT_BYTES && export_refusal(e@),
        },
{
    let text = render_json(wire);
    if text.as_str().as_bytes().len() > MAX_EXPORT_BYTES {
        return Err(document_invalid("canonical-bytes", None));
    }
    Ok(text)
}

/// `s` is what the writer gives for some wire form of the attachment.
pub open spec fn attachment_exports(a: AttachmentView, s: Seq<char>) -> bool {
    exists|w: JsonValue| #[trigger] object_is(w, attachment_shape(a)) && rendered_json(tree(w)) == s
}

/// Some wire form of the attachment writes to more than the export
/// bound.
pub open spec fn attachment_over_bound(a: AttachmentView) -> bool {
    exists|w: JsonValue| #[trigger] object_is(w, attachment_shape(a)) && byte_len(rendered_json(tree(w))) > MAX_EXPORT_BYTES
}

/// The canonical export is a function of the attachment's content: two
/// exports of one attachment are the same text.
pub proof fn lemma_attachment_export_unique(a: AttachmentView, s1: Seq<char>, s2: Seq<char>)
    requires
        attachment_exports(a, s1),
        attachment_exports(a, s2),
    ensures
        s1 == s2,
{
    let w1 = choose|w: JsonValue| #[trigger] object_is(w, attachment_shape(a)) && rendered_json(tree(w)) == s1;
    let w2 = choose|w: JsonValue| #[trigger] object_is(w, attachment_shape(a)) && rendered_json(tree(w)) == s2;
    lemma_text_is_determines(a.attachment_revision);
    lemma_classifications_determine(a.classifications);
    lemma_grants_determine(a.declassifications);
    lemma_defaults_shape_determines(a.defaults);
    lemma_object_shaped_determines(defaults_shape(a.defaults));
    lemma_text_is_determines(IDENTITY@);
    lemma_pin_shape_determines("irVersion"@, a.ir_ref);
    lemma_object_shaped_determines(pin_shape("irVersion"@, a.ir_ref));
    lemma_pin_shape_determines("modelVersion"@, a.model_ref);
    lemma_object_shaped_determines(pin_shape("modelVersion"@, a.model_ref));
    lemma_questions_determine(a.open_questions);
    lemma_text_is_determines(a.project_id);
    lemma_text_is_determines(SCHEMA_VERSION@);
    assert(shapes_determine(attachment_shape(a)));
    lemma_object_determined(w1, w2, attachment_shape(a));
}

/// The canonical export of one classification attachment: compact JSON
/// of its wire form with byte-sorted keys and no trailing LF, or the
/// export-limit refusal.
pub fn attachment_canonical_bytes(attachment: &Attachment) -> (r: Result<String, DiagnosticSet>)
    ensures
        match r {
            Ok(s) => attachment_exports(attachment@, s@) && byte_len(s@) <= MAX_EXPORT_BYTES,
            Err(e) => attachment_over_bound(attachment@) && export_refusal(e@),
        },
{
    let wire = attachment.wire();
    let r = export_text(&wire);
    proof {
        assert(object_is(wire, attachment_shape(attachment@)));
    }
    r
}

/// The `sha256:<64 lowercase hex>` digest of the canonical attachment
/// bytes.
pub fn attachment_digest(attachment: &Attachment) -> (r: Result<String, DiagnosticSet>)
    ensures
        match r {
            Ok(d) => exists|s: Seq<char>| attachment_exports(attachment@, s) && byte_len(s) <= MAX_EXPORT_BYTES
                && #[trigger] digest_text(vstd::utf8::encode_utf8(s)) == d@,
            Err(e) => attachment_over_bound(attachment@) && export_refusal(e@),
        },
{
    let bytes = attachment_canonical_bytes(attachment)?;
    let d = sha256_digest(bytes.as_str().as_bytes());
    proof {
        assert(digest_text(vstd::utf8::encode_utf8(bytes@)) == d@);
    }
    Ok(d)
}


// ---------------------------------------------------------------------
// The policy wire form

/// The wire spellings of destinations.
pub open spec fn destination_texts(ds: Seq<DestinationKind>) -> Seq<Seq<char>> {
    ds.map_values(|d: DestinationKind| d.spec_text())
}

/// The masking declaration `{policyRef, strategy}`.
pub open spec fn masking_shape(m: (MaskingStrategy, Seq<char>)) -> Seq<MemberShape> {
    seq![("policyRef"@, text_is(m.1)), ("strategy"@, text_is(m.0.spec_text()))]
}

/// One kind rule; `exportRef` and `retentionRef` appear only when
/// present.
pub open spec fn rule_shape(k: KindRuleView) -> Seq<MemberShape> {
    seq![
        ("consentRequired"@, flag_is(k.consent_required)),
        ("crossTenant"@, text_is(k.cross_tenant.spec_text())),
        ("declassifyRoles"@, texts_are(k.declassify_roles)),
        ("destinations"@, texts_are(destination_texts(k.destinations))),
        ("encryptionRefs"@, texts_are(k.encryption_refs)),
    ]
        + optional_member(k.export_ref is Some, ("exportRef"@, text_is(k.export_ref.unwrap())))
        + seq![
            ("kind"@, text_is(k.kind.spec_text())),
            ("masking"@, object_shaped(masking_shape(k.masking))),
            ("readers"@, texts_are(k.readers)),
        ]
        + optional_member(k.retention_ref is Some, ("retentionRef"@, text_is(k.retention_ref.unwrap())))
        + seq![("writers"@, texts_are(k.writers))]
}

/// An array of kind rules, in order.
pub open spec fn rules_are(ks: Seq<KindRuleView>) -> spec_fn(JsonValue) -> bool {
    |v: JsonValue| v matches JsonValue::Array(items) && items@.len() == ks.len()
        && forall|i: int| 0 <= i < ks.len() ==> object_is(#[trigger] items@[i], rule_shape(ks[i]))
}

/// The sinks block: one `{maxKind}` member per declared sink, in the
/// declared order.
pub open spec fn sinks_shape(ss: Seq<(SinkName, DataKind)>) -> Seq<MemberShape> {
    ss.map_values(|s: (SinkName, DataKind)|
        (s.0.spec_text(), object_shaped(seq![("maxKind"@, text_is(s.1.spec_text()))])))
}

/// One policy open question; `kind` appears only when present.
pub open spec fn policy_question_shape(q: PolicyOpenQuestionView) -> Seq<MemberShape> {
    seq![("id"@, text_is(q.id))]
        + optional_member(q.kind is Some, ("kind"@, text_is(q.kind.unwrap().spec_text())))
        + seq![("question"@, text_is(q.question))]
}

/// An array of policy open questions, in order.
pub open spec fn policy_questions_are(qs: Seq<PolicyOpenQuestionView>) -> spec_fn(JsonValue) -> bool {
    |v: JsonValue| v matches JsonValue::Array(items) && items@.len() == qs.len()
        && forall|i: int| 0 <= i < qs.len() ==> object_is(#[trigger] items@[i], policy_question_shape(qs[i]))
}

proof fn lemma_rule_shape_determines(k: KindRuleView)
    ensures
        shapes_determine(rule_shape(k)),
{
    lemma_flag_is_determines(k.consent_required);
    lemma_text_is_determines(k.cross_tenant.spec_text());
    lemma_texts_are_determines(k.declassify_roles);
    lemma_texts_are_determines(destination_texts(k.destinations));
    lemma_texts_are_determines(k.encryption_refs);
    lemma_text_is_determines(k.export_ref.unwrap());
    lemma_text_is_determines(k.kind.spec_text());
    lemma_text_is_determines(k.masking.1);
    lemma_text_is_determines(k.masking.0.spec_text());
    assert(shapes_determine(masking_shape(k.masking)));
    lemma_object_shaped_determines(masking_shape(k.masking));
    lemma_texts_are_determines(k.readers);
    lemma_text_is_determines(k.retention_ref.unwrap());
    lemma_texts_are_determines(k.writers);
    let a = seq![
        ("consentRequired"@, flag_is(k.consent_required)),
        ("crossTenant"@, text_is(k.cross_tenant.spec_text())),
        ("declassifyRoles"@, texts_are(k.declassify_roles)),
        ("destinations"@, texts_are(destination_texts(k.destinations))),
        ("encryptionRefs"@, texts_are(k.encryption_refs)),
    ];
    let b = optional_member(k.export_ref is Some, ("exportRef"@, text_is(k.export_ref.unwrap())));
    let c = seq![
        ("kind"@, text_is(k.kind.spec_text())),
        ("masking"@, object_shaped(masking_shape(k.masking))),
        ("readers"@, texts_are(k.readers)),
    ];
    let d = optional_member(k.retention_ref is Some, ("retentionRef"@, text_is(k.retention_ref.unwrap())));
    let e = seq![("writers"@, texts_are(k.writers))];
    lemma_optional_determines(k.export_ref is Some, ("exportRef"@, text_is(k.export_ref.unwrap())));
    lemma_optional_determines(k.retention_ref is Some, ("retentionRef"@, text_is(k.retention_ref.unwrap())));
    lemma_one_determines(("writers"@, texts_are(k.writers)));
    lemma_shapes_join(a, b);
    lemma_shapes_join(a + b, c);
    lemma_shapes_join(a + b + c, d);
    lemma_shapes_join(a + b + c + d, e);
}

proof fn lemma_rules_determine(ks: Seq<KindRuleView>)
    ensures
        determines(rules_are(ks)),
{
    assert forall|v1: JsonValue, v2: JsonValue| (rules_are(ks))(v1) && (rules_are(ks))(v2) implies tree(v1) == tree(v2) by {
        let a = v1->Array_0@;
        let b = v2->Array_0@;
        assert forall|i: int| 0 <= i < a.len() implies #[trigger] crate::json::trees(a)[i] == crate::json::trees(b)[i] by {
            lemma_rule_shape_determines(ks[i]);
            lemma_object_determined(a[i], b[i], rule_shape(ks[i]));
        }
        assert(crate::json::trees(a) =~= crate::json::trees(b));
    }
}

proof fn lemma_sinks_shape_determines(ss: Seq<(SinkName, DataKind)>)
    ensures
        shapes_determine(sinks_shape(ss)),
{
    assert forall|i: int| 0 <= i < sinks_shape(ss).len() implies determines(#[trigger] sinks_shape(ss)[i].1) by {
        let want = seq![("maxKind"@, text_is(ss[i].1.spec_text()))];
        lemma_text_is_determines(ss[i].1.spec_text());
        lemma_one_determines(("maxKind"@, text_is(ss[i].1.spec_text())));
        lemma_object_shaped_determines(want);
        assert(sinks_shape(ss)[i].1 == object_shaped(want));
    }
}

proof fn lemma_policy_question_shape_determines(q: PolicyOpenQuestionView)
    ensures
        shapes_determine(policy_question_shape(q)),
{
    lemma_text_is_determines(q.id);
    lemma_text_is_determines(q.kind.unwrap().spec_text());
    lemma_text_is_determines(q.question);
    let a = seq![("id"@, text_is(q.id))];
    let b = optional_member(q.kind is Some, ("kind"@, text_is(q.kind.unwrap().spec_text())));
    let c = seq![("question"@, text_is(q.question))];
    lemma_one_determines(("id"@, text_is(q.id)));
    lemma_optional_determines(q.kind is Some, ("kind"@, text_is(q.kind.unwrap().spec_text())));
    lemma_one_determines(("question"@, text_is(q.question)));
    lemma_shapes_join(a, b);
    lemma_shapes_join(a + b, c);
}

proof fn lemma_policy_questions_determine(qs: Seq<PolicyOpenQuestionView>)
    ensures
        determines(policy_questions_are(qs)),
{
    assert forall|v1: JsonValue, v2: JsonValue| (policy_questions_are(qs))(v1) && (policy_questions_are(qs))(v2) implies tree(v1) == tree(v2) by {
        let a = v1->Array_0@;
        let b = v2->Array_0@;
        assert forall|i: int| 0 <= i < a.len() implies #[trigger] crate::json::trees(a)[i] == crate::json::trees(b)[i] by {
            lemma_policy_question_shape_determines(qs[i]);
            lemma_object_determined(a[i], b[i], policy_question_shape(qs[i]));
        }
        assert(crate::json::trees(a) =~= crate::json::trees(b));
    }
}

/// The closed wire form of a policy, members in byte order of their
/// names.
pub open spec fn policy_shape(p: PolicyView) -> Seq<MemberShape> {
    seq![
        ("attachmentRevision"@, text_is(p.attachment_revision)),
        ("identity"@, text_is(POLICY_IDENTITY@)),
        ("irRef"@, object_shaped(pin_shape("irVersion"@, p.ir_ref))),
        ("kinds"@, rules_are(p.kinds)),
        ("modelRef"@, object_shaped(pin_shape("modelVersion"@, p.model_ref))),
        ("openQuestions"@, policy_questions_are(p.open_questions)),
        ("projectId"@, text_is(p.project_id)),
        ("schemaVersion"@, text_is(POLICY_SCHEMA_VERSION@)),
        ("sinks"@, object_shaped(sinks_shape(p.sinks))),
    ]
}

/// The texts of actor references.
fn actor_texts(actors: &[ActorRef]) -> (r: Vec<&str>)
    ensures
        r@.map_values(|t: &str| t@) == token_texts(actors@),
{
    let mut out: Vec<&str> = Vec::new();
    let mut i: usize = 0;
    while i < actors.len()
        invariant
            i <= actors@.len(),
            out@.len() == i,
            forall|j: int| 0 <= j < i ==> (#[trigger] out@[j])@ == actors@[j]@,
        decreases actors@.len() - i,
    {
        out.push(actors[i].as_str());
        i = i + 1;
    }
    assert(out@.map_values(|t: &str| t@) =~= token_texts(actors@));
    out
}

/// The texts of contract references.
fn contract_texts(refs: &[ContractRef]) -> (r: Vec<&str>)
    ensures
        r@.map_values(|t: &str| t@) == token_texts(refs@),
{
    let mut out: Vec<&str> = Vec::new();
    let mut i: usize = 0;
    while i < refs.len()
        invariant
            i <= refs@.len(),
            out@.len() == i,
            forall|j: int| 0 <= j < i ==> (#[trigger] out@[j])@ == refs@[j]@,
        decreases refs@.len() - i,
    {
        out.push(refs[i].as_str());
        i = i + 1;
    }
    assert(out@.map_values(|t: &str| t@) =~= token_texts(refs@));
    out
}

/// The wire spellings of destinations.
fn destination_list(ds: &[DestinationKind]) -> (r: Vec<&str>)
    ensures
        r@.map_values(|t: &str| t@) == destination_texts(ds@),
{
    let mut out: Vec<&'static str> = Vec::new();
    let mut i: usize = 0;
    while i < ds.len()
        invariant
            i <= ds@.len(),
            out@.len() == i,
            forall|j: int| 0 <= j < i ==> (#[trigger] out@[j])@ == ds@[j].spec_text(),
        decreases ds@.len() - i,
    {
        out.push(ds[i].as_str());
        i = i + 1;
    }
    assert(out@.map_values(|t: &str| t@) =~= destination_texts(ds@));
    out
}

/// The owned texts as borrowed texts.
fn borrowed(texts: &Vec<String>) -> (r: Vec<&str>)
    ensures
        r@.map_values(|t: &str| t@) == texts@.map_values(|t: String| t@),
{
    let mut out: Vec<&str> = Vec::new();
    let mut i: usize = 0;
    while i < texts.len()
        invariant
            i <= texts@.len(),
            out@.len() == i,
            forall|j: int| 0 <= j < i ==> (#[trigger] out@[j])@ == texts@[j]@,
        decreases texts@.len() - i,
    {
        out.push(texts[i].as_str());
        i = i + 1;
    }
    assert(out@.map_values(|t: &str| t@) =~= texts@.map_values(|t: String| t@));
    out
}

/// The masking object.
fn masking_wire(strategy: MaskingStrategy, policy_ref: &str) -> (r: JsonValue)
    ensures
        object_is(r, masking_shape((strategy, policy_ref@))),
{
    let mut fields: Vec<(String, JsonValue)> = Vec::new();
    let ghost f0 = fields@;
    push_member(&mut fields, "policyRef", text_value(policy_ref));
    let ghost f1 = fields@;
    push_member(&mut fields, "strategy", text_value(strategy.as_str()));
    proof {
        assert(fields@ == f1.push(fields@.last()));
        assert(fields@[0] == f1[0]);
        assert(members_are(fields@, masking_shape((strategy, policy_ref@))));
    }
    JsonValue::Object(fields)
}

/// One kind rule's wire object.
pub fn rule_wire(k: &KindRule) -> (r: JsonValue)
    ensures
        object_is(r, rule_shape(k@)),
{
    let ghost kv = k@;
    let mut fields: Vec<(String, JsonValue)> = Vec::new();
    let ghost mut want: Seq<MemberShape> = Seq::empty();
    let ghost mut f = fields@;
    push_member(&mut fields, "consentRequired", JsonValue::Bool(k.consent_required()));
    proof {
        let w = ("consentRequired"@, flag_is(kv.consent_required));
        crate::json::lemma_members_push(f, want, fields@.last(), w);
        want = want.push(w);
        f = fields@;
    }
    push_member(&mut fields, "crossTenant", text_value(k.cross_tenant().as_str()));
    proof {
        let w = ("crossTenant"@, text_is(kv.cross_tenant.spec_text()));
        crate::json::lemma_members_push(f, want, fields@.last(), w);
        want = want.push(w);
        f = fields@;
    }
    let roles = k.declassify_roles();
    push_member(&mut fields, "declassifyRoles", texts_wire(borrowed(&roles)));
    proof {
        let w = ("declassifyRoles"@, texts_are(kv.declassify_roles));
        crate::json::lemma_members_push(f, want, fields@.last(), w);
        want = want.push(w);
        f = fields@;
    }
    push_member(&mut fields, "destinations", texts_wire(destination_list(k.destinations())));
    proof {
        let w = ("destinations"@, texts_are(destination_texts(kv.destinations)));
        crate::json::lemma_members_push(f, want, fields@.last(), w);
        want = want.push(w);
        f = fields@;
    }
    push_member(&mut fields, "encryptionRefs", texts_wire(contract_texts(k.encryption_refs())));
    proof {
        let w = ("encryptionRefs"@, texts_are(kv.encryption_refs));
        crate::json::lemma_members_push(f, want, fields@.last(), w);
        want = want.push(w);
        f = fields@;
    }
    match k.export_ref() {
        Some(x) => {
            push_member(&mut fields, "exportRef", text_value(x.as_str()));
            proof {
                let w = ("exportRef"@, text_is(kv.export_ref.unwrap()));
                crate::json::lemma_members_push(f, want, fields@.last(), w);
                want = want.push(w);
                f = fields@;
            }
        },
        None => {},
    }
    push_member(&mut fields, "kind", text_value(k.kind().as_str()));
    proof {
        let w = ("kind"@, text_is(kv.kind.spec_text()));
        crate::json::lemma_members_push(f, want, fields@.last(), w);
        want = want.push(w);
        f = fields@;
    }
    let m = k.masking();
    push_member(&mut fields, "masking", masking_wire(m.strategy(), m.policy_ref().as_str()));
    proof {
        let w = ("masking"@, object_shaped(masking_shape(kv.masking)));
        crate::json::lemma_members_push(f, want, fields@.last(), w);
        want = want.push(w);
        f = fields@;
    }
    push_member(&mut fields, "readers", texts_wire(actor_texts(k.readers())));
    proof {
        let w = ("readers"@, texts_are(kv.readers));
        crate::json::lemma_members_push(f, want, fields@.last(), w);
        want = want.push(w);
        f = fields@;
    }
    match k.retention_ref() {
        Some(x) => {
            push_member(&mut fields, "retentionRef", text_value(x.as_str()));
            proof {
                let w = ("retentionRef"@, text_is(kv.retention_ref.unwrap()));
                crate::json::lemma_members_push(f, want, fields@.last(), w);
                want = want.push(w);
                f = fields@;
            }
        },
        None => {},
    }
    push_member(&mut fields, "writers", texts_wire(actor_texts(k.writers())));
    proof {
        let w = ("writers"@, texts_are(kv.writers));
        crate::json::lemma_members_push(f, want, fields@.last(), w);
        want = want.push(w);
        assert(want =~= rule_shape(kv));
    }
    JsonValue::Object(fields)
}

/// The kind rules' wire array.
fn rules_wire(ks: &[KindRule]) -> (r: JsonValue)
    ensures
        rules_are(rule_views(ks@))(r),
{
    let mut items: Vec<JsonValue> = Vec::new();
    let mut i: usize = 0;
    while i < ks.len()
        invariant
            i <= ks@.len(),
            items@.len() == i,
            forall|j: int| 0 <= j < i ==> object_is(#[trigger] items@[j], rule_shape(ks@[j]@)),
        decreases ks@.len() - i,
    {
        items.push(rule_wire(&ks[i]));
        i = i + 1;
    }
    JsonValue::Array(items)
}

/// The sinks block.
fn sinks_wire(ss: &[(SinkName, SinkCeiling)]) -> (r: JsonValue)
    ensures
        object_is(r, sinks_shape(sink_views(ss@))),
{
    let ghost want = sinks_shape(sink_views(ss@));
    let mut fields: Vec<(String, JsonValue)> = Vec::new();
    let mut i: usize = 0;
    while i < ss.len()
        invariant
            i <= ss@.len(),
            want == sinks_shape(sink_views(ss@)),
            want.len() == ss@.len(),
            members_are(fields@, want.subrange(0, i as int)),
        decreases ss@.len() - i,
    {
        let mut inner: Vec<(String, JsonValue)> = Vec::new();
        let ghost e = inner@;
        push_member(&mut inner, "maxKind", text_value(ss[i].1.max_kind().as_str()));
        let ghost kind = ss@[i as int].1@;
        proof {
            assert(inner@ == e.push(inner@.last()));
            assert(members_are(inner@, seq![("maxKind"@, text_is(kind.spec_text()))]));
        }
        let ghost f = fields@;
        push_member(&mut fields, ss[i].0.as_str(), JsonValue::Object(inner));
        proof {
            assert(sink_views(ss@)[i as int] == (ss@[i as int].0, kind));
            assert(want[i as int] == (ss@[i as int].0.spec_text(),
                object_shaped(seq![("maxKind"@, text_is(kind.spec_text()))])));
            crate::json::lemma_members_push(f, want.subrange(0, i as int), fields@.last(), want[i as int]);
            assert(want.subrange(0, i as int).push(want[i as int]) =~= want.subrange(0, i + 1));
        }
        i = i + 1;
    }
    proof {
        assert(want.subrange(0, ss@.len() as int) =~= want);
    }
    JsonValue::Object(fields)
}

/// One policy open question's wire object.
fn policy_question_wire(q: &PolicyOpenQuestion) -> (r: JsonValue)
    ensures
        object_is(r, policy_question_shape(q@)),
{
    let mut fields: Vec<(String, JsonValue)> = Vec::new();
    let ghost mut want: Seq<MemberShape> = Seq::empty();
    let ghost mut f = fields@;
    push_member(&mut fields, "id", text_value(q.id().as_str()));
    proof {
        let w = ("id"@, text_is(q@.id));
        crate::json::lemma_members_push(f, want, fields@.last(), w);
        want = want.push(w);
        f = fields@;
    }
    match q.kind() {
        Some(k) => {
            push_member(&mut fields, "kind", text_value(k.as_str()));
            proof {
                let w = ("kind"@, text_is(q@.kind.unwrap().spec_text()));
                crate::json::lemma_members_push(f, want, fields@.last(), w);
                want = want.push(w);
                f = fields@;
            }
        },
        None => {},
    }
    push_member(&mut fields, "question", text_value(q.question().as_str()));
    proof {
        let w = ("question"@, text_is(q@.question));
        crate::json::lemma_members_push(f, want, fields@.last(), w);
        want = want.push(w);
        assert(want =~= policy_question_shape(q@));
    }
    JsonValue::Object(fields)
}

/// The policy open questions' wire array.
fn policy_questions_wire(qs: &[PolicyOpenQuestion]) -> (r: JsonValue)
    ensures
        policy_questions_are(policy_question_views(qs@))(r),
{
    let mut items: Vec<JsonValue> = Vec::new();
    let mut i: usize = 0;
    while i < qs.len()
        invariant
            i <= qs@.len(),
            items@.len() == i,
            forall|j: int| 0 <= j < i ==> object_is(#[trigger] items@[j], policy_question_shape(qs@[j]@)),
        decreases qs@.len() - i,
    {
        items.push(policy_question_wire(&qs[i]));
        i = i + 1;
    }
    JsonValue::Array(items)
}

impl PolicyAttachment {
    /// The closed wire form of the policy, members in byte order of
    /// their names.
    pub fn wire(&self) -> (r: JsonValue)
        ensures
            object_is(r, policy_shape(self@)),
    {
        let ghost p = self@;
        let mut fields: Vec<(String, JsonValue)> = Vec::new();
        let ghost mut want: Seq<MemberShape> = Seq::empty();
        let ghost mut f = fields@;
        push_member(&mut fields, "attachmentRevision", text_value(self.attachment_revision()));
        proof {
            let w = ("attachmentRevision"@, text_is(p.attachment_revision));
            crate::json::lemma_members_push(f, want, fields@.last(), w);
            want = want.push(w);
            f = fields@;
        }
        push_member(&mut fields, "identity", text_value(POLICY_IDENTITY));
        proof {
            let w = ("identity"@, text_is(POLICY_IDENTITY@));
            crate::json::lemma_members_push(f, want, fields@.last(), w);
            want = want.push(w);
            f = fields@;
        }
        let ir = self.ir_ref();
        push_member(&mut fields, "irRef", pin_wire("irVersion", ir.0.as_str(), ir.1.as_str()));
        proof {
            let w = ("irRef"@, object_shaped(pin_shape("irVersion"@, p.ir_ref)));
            crate::json::lemma_members_push(f, want, fields@.last(), w);
            want = want.push(w);
            f = fields@;
        }
        push_member(&mut fields, "kinds", rules_wire(self.kinds()));
        proof {
            let w = ("kinds"@, rules_are(p.kinds));
            crate::json::lemma_members_push(f, want, fields@.last(), w);
            want = want.push(w);
            f = fields@;
        }
        let model = self.model_ref();
        push_member(&mut fields, "modelRef", pin_wire("modelVersion", model.0.as_str(), model.1.as_str()));
        proof {
            let w = ("modelRef"@, object_shaped(pin_shape("modelVersion"@, p.model_ref)));
            crate::json::lemma_members_push(f, want, fields@.last(), w);
            want = want.push(w);
            f = fields@;
        }
        push_member(&mut fields, "openQuestions", policy_questions_wire(self.open_questions()));
        proof {
            let w = ("openQuestions"@, policy_questions_are(p.open_questions));
            crate::json::lemma_members_push(f, want, fields@.last(), w);
            want = want.push(w);
            f = fields@;
        }
        push_member(&mut fields, "projectId", text_value(self.project_id().as_str()));
        proof {
            let w = ("projectId"@, text_is(p.project_id));
            crate::json::lemma_members_push(f, want, fields@.last(), w);
            want = want.push(w);
            f = fields@;
        }
        push_member(&mut fields, "schemaVersion", text_value(POLICY_SCHEMA_VERSION));
        proof {
            let w = ("schemaVersion"@, text_is(POLICY_SCHEMA_VERSION@));
            crate::json::lemma_members_push(f, want, fields@.last(), w);
            want = want.push(w);
            f = fields@;
        }
        push_member(&mut fields, "sinks", sinks_wire(self.sinks()));
        proof {
            let w = ("sinks"@, object_shaped(sinks_shape(p.sinks)));
            crate::json::lemma_members_push(f, want, fields@.last(), w);
            want = want.push(w);
            assert(want =~= policy_shape(p));
        }
        JsonValue::Object(fields)
    }
}

/// `s` is what the writer gives for some wire form of the policy.
pub open spec fn policy_exports(p: PolicyView, s: Seq<char>) -> bool {
    exists|w: JsonValue| #[trigger] object_is(w, policy_shape(p)) && rendered_json(tree(w)) == s
}

/// Some wire form of the policy writes to more than the export bound.
pub open spec fn policy_over_bound(p: PolicyView) -> bool {
    exists|w: JsonValue| #[trigger] object_is(w, policy_shape(p)) && byte_len(rendered_json(tree(w))) > MAX_EXPORT_BYTES
}

/// The canonical export of a policy is a function of its content: two
/// exports of one policy are the same text.
pub proof fn lemma_policy_export_unique(p: PolicyView, s1: Seq<char>, s2: Seq<char>)
    requires
        policy_exports(p, s1),
        policy_exports(p, s2),
    ensures
        s1 == s2,
{
    let w1 = choose|w: JsonValue| #[trigger] object_is(w, policy_shape(p)) && rendered_json(tree(w)) == s1;
    let w2 = choose|w: JsonValue| #[trigger] object_is(w, policy_shape(p)) && rendered_json(tree(w)) == s2;
    lemma_text_is_determines(p.attachment_revision);
    lemma_text_is_determines(POLICY_IDENTITY@);
    lemma_pin_shape_determines("irVersion"@, p.ir_ref);
    lemma_object_shaped_determines(pin_shape("irVersion"@, p.ir_ref));
    lemma_rules_determine(p.kinds);
    lemma_pin_shape_determines("modelVersion"@, p.model_ref);
    lemma_object_shaped_determines(pin_shape("modelVersion"@, p.model_ref));
    lemma_policy_questions_determine(p.open_questions);
    lemma_text_is_determines(p.project_id);
    lemma_text_is_determines(POLICY_SCHEMA_VERSION@);
    lemma_sinks_shape_determines(p.sinks);
    lemma_object_shaped_determines(sinks_shape(p.sinks));
    assert(shapes_determine(policy_shape(p)));
    lemma_object_determined(w1, w2, policy_shape(p));
}

/// The canonical export of one classification-policy attachment.
pub fn policy_canonical_bytes(policy: &PolicyAttachment) -> (r: Result<String, DiagnosticSet>)
    ensures
        match r {
            Ok(s) => policy_exports(policy@, s@) && byte_len(s@) <= MAX_EXPORT_BYTES,
            Err(e) => policy_over_bound(policy@) && export_refusal(e@),
        },
{
    let wire = policy.wire();
    let r = export_text(&wire);
    proof {
        assert(object_is(wire, policy_shape(policy@)));
    }
    r
}

/// The `sha256:<64 lowercase hex>` digest of the canonical policy bytes.
pub fn policy_digest(policy: &PolicyAttachment) -> (r: Result<String, DiagnosticSet>)
    ensures
        match r {
            Ok(d) => exists|s: Seq<char>| policy_exports(policy@, s) && byte_len(s) <= MAX_EXPORT_BYTES
                && #[trigger] digest_text(vstd::utf8::encode_utf8(s)) == d@,
            Err(e) => policy_over_bound(policy@) && export_refusal(e@),
        },
{
    let bytes = policy_canonical_bytes(policy)?;
    let d = sha256_digest(bytes.as_str().as_bytes());
    proof {
        assert(digest_text(vstd::utf8::encode_utf8(bytes@)) == d@);
    }
    Ok(d)
}

} // verus!
