//! The typed data-classification attachment and its single entry from
//! a JSON document. The document is refused before any semantic
//! processing on unknown or missing members, wrong identities,
//! malformed identifiers, digests, bounds, closed-vocabulary
//! violations, and duplicate or contradicting declarations; collections
//! are brought into canonical order.

use vstd::prelude::*;
use vstd::string::StringExecFns;
use crate::json::{JsonValue, array_of, as_text, bool_of, check_members, get, get_array, get_bool,
    get_text, is_object, key_texts, member, members_within, text_of};
use crate::ids::{SemanticId, Sha256Digest, is_revision, check_revision, is_root_id};
use crate::digest::is_digest_text;
use crate::sorting::{Ordered, dedup, sort, sorted, strictly_sorted, equivalent};

use crate::text::{str_eq, text_le, text_lt, lemma_text_le_order};
use super::types::{BoundedText, Condition, ContractRef, DataKind, IsoTimestamp, Label, Profile,
    QuestionId, RetentionClass, ReviewRef, SubjectPath, bounded_text_error, is_contract_ref,
    is_timestamp, label_error, retention_class_error, review_ref_error, subject_error};

verus! {

/// One refusal of a document: a fixed detail tag and, for duplicate or
/// contradicting declarations, the subject concerned.
#[derive(Clone, Debug, PartialEq, Eq)]
pub struct Rejection {
    pub detail: String,
    pub subject: Option<String>,
}

/// A refusal with a detail and no subject.
pub open spec fn rejects(r: Rejection, detail: Seq<char>) -> bool {
    r.detail@ == detail && r.subject is None
}

/// A refusal with a detail and no subject.
pub fn reject(detail: &str) -> (r: Rejection)
    ensures
        rejects(r, detail@),
{
    Rejection { detail: detail.to_owned(), subject: None }
}

/// The text of a member, if it is a string.
pub open spec fn text_member(v: JsonValue, key: Seq<char>) -> Option<Seq<char>> {
    text_of(member(v, key))
}

// ---------------------------------------------------------------------
// Member sets

/// The closed top-level member set.
pub open spec fn top_level_keys() -> Seq<Seq<char>> {
    seq!["schemaVersion"@, "identity"@, "attachmentRevision"@, "projectId"@, "modelRef"@, "irRef"@,
        "defaults"@, "classifications"@, "declassifications"@, "openQuestions"@]
}

fn top_level_key_list() -> (r: Vec<&'static str>)
    ensures
        key_texts(r@) == top_level_keys(),
{
    let mut r: Vec<&'static str> = Vec::new();
    r.push("schemaVersion");
    r.push("identity");
    r.push("attachmentRevision");
    r.push("projectId");
    r.push("modelRef");
    r.push("irRef");
    r.push("defaults");
    r.push("classifications");
    r.push("declassifications");
    r.push("openQuestions");
    assert(key_texts(r@) =~= top_level_keys());
    r
}

/// The closed defaults member set.
pub open spec fn defaults_keys() -> Seq<Seq<char>> {
    seq!["profile"@, "unclassifiedFields"@, "unclassifiedPayloads"@]
}

fn defaults_key_list() -> (r: Vec<&'static str>)
    ensures
        key_texts(r@) == defaults_keys(),
{
    let mut r: Vec<&'static str> = Vec::new();
    r.push("profile");
    r.push("unclassifiedFields");
    r.push("unclassifiedPayloads");
    assert(key_texts(r@) =~= defaults_keys());
    r
}

/// The closed classification-entry member set.
pub open spec fn classification_keys() -> Seq<Seq<char>> {
    seq!["subject"@, "kind"@, "tenantScoped"@, "retentionClass"@, "labels"@]
}

fn classification_key_list() -> (r: Vec<&'static str>)
    ensures
        key_texts(r@) == classification_keys(),
{
    let mut r: Vec<&'static str> = Vec::new();
    r.push("subject");
    r.push("kind");
    r.push("tenantScoped");
    r.push("retentionClass");
    r.push("labels");
    assert(key_texts(r@) =~= classification_keys());
    r
}

/// The closed declassification-grant member set.
pub open spec fn grant_keys() -> Seq<Seq<char>> {
    seq!["id"@, "subject"@, "fromKind"@, "toKind"@, "approvedBy"@, "justification"@, "conditions"@,
        "expiresAt"@]
}

fn grant_key_list() -> (r: Vec<&'static str>)
    ensures
        key_texts(r@) == grant_keys(),
{
    let mut r: Vec<&'static str> = Vec::new();
    r.push("id");
    r.push("subject");
    r.push("fromKind");
    r.push("toKind");
    r.push("approvedBy");
    r.push("justification");
    r.push("conditions");
    r.push("expiresAt");
    assert(key_texts(r@) =~= grant_keys());
    r
}

/// The closed open-question member set.
pub open spec fn open_question_keys() -> Seq<Seq<char>> {
    seq!["id"@, "question"@, "subject"@]
}

fn open_question_key_list() -> (r: Vec<&'static str>)
    ensures
        key_texts(r@) == open_question_keys(),
{
    let mut r: Vec<&'static str> = Vec::new();
    r.push("id");
    r.push("question");
    r.push("subject");
    assert(key_texts(r@) =~= open_question_keys());
    r
}

/// The pin member sets.
pub open spec fn pin_keys(version_key: Seq<char>) -> Seq<Seq<char>> {
    seq![version_key, "digest"@]
}

fn pin_key_list(version_key: &'static str) -> (r: Vec<&'static str>)
    ensures
        key_texts(r@) == pin_keys(version_key@),
{
    let mut r: Vec<&'static str> = Vec::new();
    r.push(version_key);
    r.push("digest");
    assert(key_texts(r@) =~= pin_keys(version_key@));
    r
}

// ---------------------------------------------------------------------
// Shared pieces

/// The canonical-revision check of `attachmentRevision`.
pub open spec fn revision_result(t: Option<Seq<char>>, detail: Seq<char>) -> Result<Seq<char>, Seq<char>> {
    match t {
        Some(text) => if is_revision(text) { Ok(text) } else { Err(detail) },
        None => Err(detail),
    }
}

/// One pin `{<versionKey>: <exact version>, digest: <sha256 digest>}`.
pub open spec fn pin_result(v: JsonValue, detail: Seq<char>, version_key: Seq<char>, version: Seq<char>,
    version_detail: Seq<char>, digest_detail: Seq<char>) -> Result<(Seq<char>, Seq<char>), Seq<char>> {
    if !is_object(v) {
        Err(detail)
    } else if !members_within(v, pin_keys(version_key)) {
        Err("unknown-field"@)
    } else if text_member(v, version_key) != Some(version) {
        Err(version_detail)
    } else if text_member(v, "digest"@) is None || !is_digest_text(text_member(v, "digest"@).unwrap()) {
        Err(digest_detail)
    } else {
        Ok((version, text_member(v, "digest"@).unwrap()))
    }
}

/// Parse one pin.
pub fn pin(v: &JsonValue, detail: &str, version_key: &'static str, version: &str, version_detail: &str,
    digest_detail: &str) -> (r: Result<(String, Sha256Digest), Rejection>)
    ensures
        match pin_result(*v, detail@, version_key@, version@, version_detail@, digest_detail@) {
            Ok(p) => r matches Ok(x) && x.0@ == p.0 && x.1@ == p.1,
            Err(d) => r matches Err(e) && rejects(e, d),
        },
{
    match v {
        JsonValue::Object(_) => {},
        _ => return Err(reject(detail)),
    }
    if !check_members(v, &pin_key_list(version_key)) {
        return Err(reject("unknown-field"));
    }
    let found = match get_text(v, version_key) {
        Some(found) => found,
        None => return Err(reject(version_detail)),
    };
    if !str_eq(found, version) {
        return Err(reject(version_detail));
    }
    let digest_text = match get_text(v, "digest") {
        Some(t) => t,
        None => return Err(reject(digest_detail)),
    };
    match Sha256Digest::parse(digest_text) {
        Ok(digest) => Ok((found.to_owned(), digest)),
        Err(_) => Err(reject(digest_detail)),
    }
}

/// The bound Model pin.
pub open spec fn model_pin_result(v: JsonValue) -> Result<(Seq<char>, Seq<char>), Seq<char>> {
    pin_result(v, "model-ref"@, "modelVersion"@, "0.2.16"@, "model-version"@, "model-digest"@)
}

/// The bound IR pin.
pub open spec fn ir_pin_result(v: JsonValue) -> Result<(Seq<char>, Seq<char>), Seq<char>> {
    pin_result(v, "ir-ref"@, "irVersion"@, "0.2.16"@, "ir-version"@, "ir-digest"@)
}

/// Parse the bound Model pin: exact accepted version plus digest.
pub fn model_pin(v: &JsonValue) -> (r: Result<(String, Sha256Digest), Rejection>)
    ensures
        match model_pin_result(*v) {
            Ok(p) => r matches Ok(x) && x.0@ == p.0 && x.1@ == p.1,
            Err(d) => r matches Err(e) && rejects(e, d),
        },
{
    pin(v, "model-ref", "modelVersion", "0.2.16", "model-version", "model-digest")
}

/// Parse the bound IR pin: exact accepted version plus digest.
pub fn ir_pin(v: &JsonValue) -> (r: Result<(String, Sha256Digest), Rejection>)
    ensures
        match ir_pin_result(*v) {
            Ok(p) => r matches Ok(x) && x.0@ == p.0 && x.1@ == p.1,
            Err(d) => r matches Err(e) && rejects(e, d),
        },
{
    pin(v, "ir-ref", "irVersion", "0.2.16", "ir-version", "ir-digest")
}

// ---------------------------------------------------------------------
// Defaults

/// The per-profile secure defaults.
#[derive(Clone, Copy, Debug, PartialEq, Eq)]
pub struct Defaults {
    profile: Profile,
    unclassified_fields: DataKind,
    unclassified_payloads: DataKind,
}

impl View for Defaults {
    type V = (Profile, DataKind, DataKind);

    closed spec fn view(&self) -> (Profile, DataKind, DataKind) {
        (self.profile, self.unclassified_fields, self.unclassified_payloads)
    }
}

impl Defaults {
    /// The declared profile.
    pub fn profile(&self) -> (r: Profile)
        ensures
            r == self@.0,
    {
        self.profile
    }

    /// The default kind for unclassified field subjects.
    pub fn unclassified_fields(&self) -> (r: DataKind)
        ensures
            r == self@.1,
    {
        self.unclassified_fields
    }

    /// The default kind for unclassified payload subjects.
    pub fn unclassified_payloads(&self) -> (r: DataKind)
        ensures
            r == self@.2,
    {
        self.unclassified_payloads
    }
}

/// The kind named by a member, if it names one.
pub open spec fn kind_member(v: JsonValue, key: Seq<char>) -> Option<DataKind> {
    match text_member(v, key) {
        Some(t) => DataKind::spec_parse(t),
        None => None,
    }
}

/// The defaults object.
pub open spec fn defaults_result(v: JsonValue) -> Result<(Profile, DataKind, DataKind), Seq<char>> {
    if !is_object(v) {
        Err("defaults"@)
    } else if !members_within(v, defaults_keys()) {
        Err("unknown-field"@)
    } else if text_member(v, "profile"@) is None || Profile::spec_parse(text_member(v, "profile"@).unwrap()) is None {
        Err("profile"@)
    } else if kind_member(v, "unclassifiedFields"@) is None {
        Err("unclassified-fields"@)
    } else if kind_member(v, "unclassifiedPayloads"@) is None {
        Err("unclassified-payloads"@)
    } else {
        Ok((Profile::spec_parse(text_member(v, "profile"@).unwrap()).unwrap(),
            kind_member(v, "unclassifiedFields"@).unwrap(), kind_member(v, "unclassifiedPayloads"@).unwrap()))
    }
}

fn kind_of(v: &JsonValue, key: &str, detail: &str) -> (r: Result<DataKind, Rejection>)
    ensures
        match kind_member(*v, key@) {
            Some(k) => r == Ok::<DataKind, Rejection>(k),
            None => r matches Err(e) && rejects(e, detail@),
        },
{
    match get_text(v, key) {
        Some(t) => match DataKind::parse(t) {
            Some(k) => Ok(k),
            None => Err(reject(detail)),
        },
        None => Err(reject(detail)),
    }
}

fn defaults(v: &JsonValue) -> (r: Result<Defaults, Rejection>)
    ensures
        match defaults_result(*v) {
            Ok(d) => r matches Ok(x) && x@ == d,
            Err(d) => r matches Err(e) && rejects(e, d),
        },
{
    match v {
        JsonValue::Object(_) => {},
        _ => return Err(reject("defaults")),
    }
    if !check_members(v, &defaults_key_list()) {
        return Err(reject("unknown-field"));
    }
    let profile = match get_text(v, "profile") {
        Some(t) => match Profile::parse(t) {
            Some(p) => p,
            None => return Err(reject("profile")),
        },
        None => return Err(reject("profile")),
    };
    let unclassified_fields = kind_of(v, "unclassifiedFields", "unclassified-fields")?;
    let unclassified_payloads = kind_of(v, "unclassifiedPayloads", "unclassified-payloads")?;
    Ok(Defaults { profile, unclassified_fields, unclassified_payloads })
}


// ---------------------------------------------------------------------
// Canonical order of declared texts

impl Ordered for Label {
    open spec fn spec_le(&self, other: &Self) -> bool {
        text_le(self@, other@)
    }

    proof fn lemma_total(a: &Self, b: &Self) {
        lemma_text_le_order(a@, b@, a@);
    }

    proof fn lemma_transitive(a: &Self, b: &Self, c: &Self) {
        lemma_text_le_order(a@, b@, c@);
    }

    fn le(&self, other: &Self) -> (r: bool) {
        !crate::text::str_lt(other.as_str(), self.as_str())
    }
}

/// A canonical list of texts: strictly increasing in byte order, and
/// the same set of texts as `input`.
pub open spec fn canonical_texts(out: Seq<Seq<char>>, input: Seq<Seq<char>>) -> bool {
    &&& forall|i: int, j: int| 0 <= i < j < out.len() ==> text_lt(#[trigger] out[i], #[trigger] out[j])
    &&& forall|i: int| 0 <= i < out.len() ==> input.contains(#[trigger] out[i])
    &&& forall|j: int| 0 <= j < input.len() ==> out.contains(#[trigger] input[j])
}

/// The views of a list of labels.
pub open spec fn label_views(labels: Seq<Label>) -> Seq<Seq<char>> {
    labels.map_values(|l: Label| l@)
}

/// The texts of a list of JSON values that are all strings.
pub open spec fn item_texts(items: Seq<JsonValue>) -> Seq<Seq<char>> {
    items.map_values(|x: JsonValue| text_of(Some(x)).unwrap())
}

/// Whether some item of a list is not a valid label.
pub open spec fn has_bad_label(items: Seq<JsonValue>) -> bool {
    exists|i: int| 0 <= i < items.len() && (text_of(Some(#[trigger] items[i])) is None
        || label_error(text_of(Some(items[i])).unwrap()) is Some)
}

/// The `labels` member: absent, or an array of at most 16 labels.
pub open spec fn labels_error(m: Option<JsonValue>) -> bool {
    match m {
        None => false,
        Some(x) => match array_of(Some(x)) {
            None => true,
            Some(items) => items.len() > 16 || has_bad_label(items),
        },
    }
}

/// The canonical labels of a valid `labels` member.
pub open spec fn labels_match(m: Option<JsonValue>, labels: Seq<Seq<char>>) -> bool {
    match array_of(m) {
        None => labels.len() == 0,
        Some(items) => canonical_texts(labels, item_texts(items)),
    }
}

/// Parse a label array: every item a label, at most `limit` of them,
/// brought into canonical order with duplicates removed.
fn labels(items: &Vec<JsonValue>, limit: usize, detail: &str) -> (r: Result<Vec<Label>, Rejection>)
    ensures
        if items@.len() > limit || has_bad_label(items@) {
            r matches Err(e) && rejects(e, detail@)
        } else {
            r matches Ok(out) && canonical_texts(label_views(out@), item_texts(items@))
        },
{
    if items.len() > limit {
        return Err(reject(detail));
    }
    let mut parsed: Vec<Label> = Vec::new();
    let mut i: usize = 0;
    while i < items.len()
        invariant
            i <= items@.len(),
            parsed@.len() == i,
            forall|j: int| 0 <= j < i ==> text_of(Some(#[trigger] items@[j])) is Some
                && label_error(text_of(Some(items@[j])).unwrap()) is None,
            forall|j: int| 0 <= j < i ==> (#[trigger] parsed@[j])@ == text_of(Some(items@[j])).unwrap(),
        decreases items@.len() - i,
    {
        let text = match as_text(&items[i]) {
            Some(t) => t,
            None => return Err(reject(detail)),
        };
        match Label::parse(text) {
            Ok(label) => parsed.push(label),
            Err(_) => return Err(reject(detail)),
        }
        i = i + 1;
    }
    let ghost parsed_view = parsed@;
    let out = crate::sorting::sort_dedup(parsed);
    proof {
        let texts = item_texts(items@);
        let lv = label_views(out@);
        assert(!has_bad_label(items@));
        assert forall|a: int, b: int| 0 <= a < b < lv.len() implies text_lt(#[trigger] lv[a], #[trigger] lv[b]) by {
            assert(out@[a].spec_le(&out@[b]) && !out@[b].spec_le(&out@[a]));
        }
        assert forall|a: int| 0 <= a < lv.len() implies texts.contains(#[trigger] lv[a]) by {
            assert(parsed_view.contains(out@[a]));
            let k = choose|k: int| 0 <= k < parsed_view.len() && parsed_view[k] == out@[a];
            assert(texts[k] == lv[a]);
        }
        assert forall|b: int| 0 <= b < texts.len() implies lv.contains(#[trigger] texts[b]) by {
            assert(crate::sorting::covered(out@, parsed_view[b]));
            let a = choose|a: int| 0 <= a < out@.len() && #[trigger] equivalent(out@[a], parsed_view[b]);
            lemma_text_le_order(out@[a]@, parsed_view[b]@, out@[a]@);
            assert(lv[a] == texts[b]);
        }
    }
    Ok(out)
}

// ---------------------------------------------------------------------
// Classification entries

/// One declared classification.
#[derive(Clone, Debug, PartialEq, Eq)]
pub struct Classification {
    subject: SubjectPath,
    kind: DataKind,
    tenant_scoped: bool,
    retention_class: Option<RetentionClass>,
    labels: Vec<Label>,
}

/// The contract-level content of a classification entry.
pub struct ClassificationView {
    pub subject: Seq<char>,
    pub kind: DataKind,
    pub tenant_scoped: bool,
    pub retention_class: Option<Seq<char>>,
    pub labels: Seq<Seq<char>>,
}

impl View for Classification {
    type V = ClassificationView;

    closed spec fn view(&self) -> ClassificationView {
        ClassificationView {
            subject: self.subject@,
            kind: self.kind,
            tenant_scoped: self.tenant_scoped,
            retention_class: match self.retention_class {
                Some(r) => Some(r@),
                None => None,
            },
            labels: label_views(self.labels@),
        }
    }
}

impl Classification {
    /// The classified subject.
    pub fn subject(&self) -> (r: &SubjectPath)
        ensures
            r@ == self@.subject,
    {
        &self.subject
    }

    /// The declared kind.
    pub fn kind(&self) -> (r: DataKind)
        ensures
            r == self@.kind,
    {
        self.kind
    }

    /// Whether the subject is explicitly tenant-scoped.
    pub fn tenant_scoped(&self) -> (r: bool)
        ensures
            r == self@.tenant_scoped,
    {
        self.tenant_scoped
    }

    /// The optional retention class.
    pub fn retention_class(&self) -> (r: Option<&RetentionClass>)
        ensures
            match r {
                Some(c) => self@.retention_class == Some(c@),
                None => self@.retention_class is None,
            },
    {
        match &self.retention_class {
            Some(c) => Some(c),
            None => None,
        }
    }

    /// The labels, canonically ordered.
    pub fn labels(&self) -> (r: &[Label])
        ensures
            label_views(r@) == self@.labels,
    {
        self.labels.as_slice()
    }
}

impl Ordered for Classification {
    open spec fn spec_le(&self, other: &Self) -> bool {
        text_le(self@.subject, other@.subject)
    }

    proof fn lemma_total(a: &Self, b: &Self) {
        lemma_text_le_order(a@.subject, b@.subject, a@.subject);
    }

    proof fn lemma_transitive(a: &Self, b: &Self, c: &Self) {
        lemma_text_le_order(a@.subject, b@.subject, c@.subject);
    }

    fn le(&self, other: &Self) -> (r: bool) {
        !crate::text::str_lt(other.subject.as_str(), self.subject.as_str())
    }
}

/// Why one classification entry is refused, if it is.
pub open spec fn classification_entry_error(v: JsonValue) -> Option<Seq<char>> {
    if !is_object(v) {
        Some("classification-shape"@)
    } else if !members_within(v, classification_keys()) {
        Some("unknown-field"@)
    } else if text_member(v, "subject"@) is None || subject_error(text_member(v, "subject"@).unwrap()) is Some {
        Some("subject"@)
    } else if kind_member(v, "kind"@) is None {
        Some("kind"@)
    } else if member(v, "tenantScoped"@) is Some && bool_of(member(v, "tenantScoped"@)) is None {
        Some("tenant-scoped"@)
    } else if member(v, "retentionClass"@) is Some && (text_member(v, "retentionClass"@) is None
        || retention_class_error(text_member(v, "retentionClass"@).unwrap()) is Some) {
        Some("retention-class"@)
    } else if labels_error(member(v, "labels"@)) {
        Some("labels"@)
    } else {
        None
    }
}

/// The classification a valid entry declares.
pub open spec fn classification_entry_matches(v: JsonValue, c: ClassificationView) -> bool {
    &&& c.subject == text_member(v, "subject"@).unwrap()
    &&& c.kind == kind_member(v, "kind"@).unwrap()
    &&& c.tenant_scoped == match bool_of(member(v, "tenantScoped"@)) {
        Some(b) => b,
        None => false,
    }
    &&& c.retention_class == text_member(v, "retentionClass"@)
    &&& labels_match(member(v, "labels"@), c.labels)
}

/// Parse one classification entry.
pub fn classification_entry(v: &JsonValue) -> (r: Result<Classification, Rejection>)
    ensures
        match classification_entry_error(*v) {
            Some(d) => r matches Err(e) && rejects(e, d),
            None => r matches Ok(c) && classification_entry_matches(*v, c@),
        },
{
    match v {
        JsonValue::Object(_) => {},
        _ => return Err(reject("classification-shape")),
    }
    if !check_members(v, &classification_key_list()) {
        return Err(reject("unknown-field"));
    }
    let subject = match get_text(v, "subject") {
        Some(t) => match SubjectPath::parse(t) {
            Ok(s) => s,
            Err(_) => return Err(reject("subject")),
        },
        None => return Err(reject("subject")),
    };
    let kind = kind_of(v, "kind", "kind")?;
    let tenant_scoped = match get(v, "tenantScoped") {
        None => false,
        Some(JsonValue::Bool(b)) => *b,
        Some(_) => return Err(reject("tenant-scoped")),
    };
    let retention_class = match get(v, "retentionClass") {
        None => None,
        Some(JsonValue::Text(t)) => match RetentionClass::parse(t.as_str()) {
            Ok(c) => Some(c),
            Err(_) => return Err(reject("retention-class")),
        },
        Some(_) => return Err(reject("retention-class")),
    };
    let labels = match get(v, "labels") {
        None => {
            let empty: Vec<Label> = Vec::new();
            assert(label_views(empty@) =~= Seq::<Seq<char>>::empty());
            empty
        },
        Some(JsonValue::Array(items)) => labels(items, 16, "labels")?,
        Some(_) => return Err(reject("labels")),
    };
    let c = Classification { subject, kind, tenant_scoped, retention_class, labels };
    Ok(c)
}


/// How one declared list fares.
pub enum Outcome {
    /// The list is accepted.
    Accept,
    /// The list is refused with a detail and no subject.
    Reject(Seq<char>),
    /// The list is refused with a detail naming one offending subject.
    RejectSubject(Seq<char>),
}

/// The views of a list of classifications.
pub open spec fn classification_views(s: Seq<Classification>) -> Seq<ClassificationView> {
    s.map_values(|c: Classification| c@)
}

/// The subject an entry declares.
pub open spec fn entry_subject(v: JsonValue) -> Seq<char> {
    text_member(v, "subject"@).unwrap()
}

/// `s` is the subject of two distinct entries.
pub open spec fn duplicated_subject(items: Seq<JsonValue>, s: Seq<char>) -> bool {
    exists|i: int, j: int| 0 <= i < j < items.len() && #[trigger] entry_subject(items[i]) == s
        && #[trigger] entry_subject(items[j]) == s
}

/// A refusal naming a duplicated subject.
pub open spec fn names_duplicate(e: Rejection, d: Seq<char>, items: Seq<JsonValue>) -> bool {
    &&& e.detail@ == d
    &&& e.subject is Some
    &&& duplicated_subject(items, e.subject.unwrap()@)
}

/// Two distinct entries declare one subject.
pub open spec fn has_duplicated_subject(items: Seq<JsonValue>) -> bool {
    exists|i: int| 0 <= i < items.len() && duplicated_subject(items, #[trigger] entry_subject(items[i]))
}

/// The first refused entry's detail, in document order.
pub open spec fn classification_items_error(items: Seq<JsonValue>) -> Option<Seq<char>>
    decreases items.len(),
{
    if items.len() == 0 {
        None
    } else {
        match classification_entry_error(items[0]) {
            Some(d) => Some(d),
            None => classification_items_error(items.drop_first()),
        }
    }
}

/// The classification list of a document.
pub open spec fn classifications_outcome(items: Seq<JsonValue>) -> Outcome {
    if items.len() > 4096 {
        Outcome::Reject("classification-list"@)
    } else if classification_items_error(items) is Some {
        Outcome::Reject(classification_items_error(items).unwrap())
    } else if has_duplicated_subject(items) {
        Outcome::RejectSubject("duplicate-classification"@)
    } else {
        Outcome::Accept
    }
}

/// Some entry declares `c`.
pub open spec fn declared_by_some(items: Seq<JsonValue>, c: ClassificationView) -> bool {
    exists|k: int| 0 <= k < items.len() && #[trigger] classification_entry_matches(items[k], c)
}

/// Some member of `out` is what entry `v` declares.
pub open spec fn declares_some(out: Seq<ClassificationView>, v: JsonValue) -> bool {
    exists|i: int| 0 <= i < out.len() && #[trigger] classification_entry_matches(v, out[i])
}

/// The accepted list: one classification per entry, strictly ordered by
/// subject bytes.
pub open spec fn classifications_match(items: Seq<JsonValue>, out: Seq<ClassificationView>) -> bool {
    &&& out.len() == items.len()
    &&& forall|i: int, j: int| 0 <= i < j < out.len() ==> text_lt(#[trigger] out[i].subject, #[trigger] out[j].subject)
    &&& forall|i: int| 0 <= i < out.len() ==> declared_by_some(items, #[trigger] out[i])
    &&& forall|k: int| 0 <= k < items.len() ==> declares_some(out, #[trigger] items[k])
}

proof fn lemma_items_error_prefix(items: Seq<JsonValue>, i: int)
    requires
        0 <= i <= items.len(),
        forall|j: int| 0 <= j < i ==> classification_entry_error(#[trigger] items[j]) is None,
    ensures
        classification_items_error(items) == classification_items_error(items.subrange(i, items.len() as int)),
    decreases i,
{
    if i > 0 {
        assert(items.drop_first().subrange(i - 1, items.len() - 1) =~= items.subrange(i, items.len() as int));
        assert forall|j: int| 0 <= j < i - 1 implies classification_entry_error(#[trigger] items.drop_first()[j]) is None by {
            assert(items.drop_first()[j] == items[j + 1]);
        }
        lemma_items_error_prefix(items.drop_first(), i - 1);
    } else {
        assert(items.subrange(0, items.len() as int) =~= items);
    }
}

/// Parse every classification entry; order canonically by subject and
/// refuse duplicate subjects.
pub fn classifications(items: &Vec<JsonValue>) -> (r: Result<Vec<Classification>, Rejection>)
    ensures
        match classifications_outcome(items@) {
            Outcome::Accept => r matches Ok(out) && classifications_match(items@, classification_views(out@)),
            Outcome::Reject(d) => r matches Err(e) && rejects(e, d),
            Outcome::RejectSubject(d) => r matches Err(e) && names_duplicate(e, d, items@),
        },
{
    if items.len() > 4096 {
        return Err(reject("classification-list"));
    }
    let mut parsed: Vec<Classification> = Vec::new();
    let mut i: usize = 0;
    while i < items.len()
        invariant
            i <= items@.len(),
            items@.len() <= 4096,
            parsed@.len() == i,
            forall|j: int| 0 <= j < i ==> classification_entry_error(#[trigger] items@[j]) is None,
            forall|j: int| 0 <= j < i ==> classification_entry_matches(items@[j], (#[trigger] parsed@[j])@),
        decreases items@.len() - i,
    {
        proof { lemma_items_error_prefix(items@, i as int); }
        let c = match classification_entry(&items[i]) {
            Ok(c) => c,
            Err(e) => {
                proof {
                    assert(items@.subrange(i as int, items@.len() as int)[0] == items@[i as int]);
                }
                return Err(e);
            },
        };
        parsed.push(c);
        i = i + 1;
    }
    proof {
        lemma_items_error_prefix(items@, items@.len() as int);
        assert(classification_items_error(items@.subrange(items@.len() as int, items@.len() as int)) is None);
    }
    let ghost parsed_view = parsed@;
    let sorted_list = sort(parsed);
    proof {
        broadcast use vstd::seq_lib::group_to_multiset_ensures;
    }
    match crate::sorting::first_adjacent_pair(&sorted_list) {
        Some(p) => {
            let subject = sorted_list[p].subject.as_str().to_owned();
            proof {
                let x = sorted_list@[p as int];
                assert(crate::sorting::pair_like(sorted_list@, x)) by {
                    Classification::lemma_total(&x, &x);
                    assert(equivalent(sorted_list@[p as int], x));
                    assert(equivalent(sorted_list@[p + 1], x));
                }
                crate::sorting::lemma_pair_like_permutation(sorted_list@, parsed_view, x);
                let (a, b) = choose|a: int, b: int| 0 <= a < b < parsed_view.len() && #[trigger] equivalent(parsed_view[a], x)
                    && #[trigger] equivalent(parsed_view[b], x);
                lemma_text_le_order(parsed_view[a]@.subject, x@.subject, x@.subject);
                lemma_text_le_order(parsed_view[b]@.subject, x@.subject, x@.subject);
                assert(entry_subject(items@[a]) == subject@);
                assert(entry_subject(items@[b]) == subject@);
                assert(duplicated_subject(items@, subject@));
                assert(has_duplicated_subject(items@));
            }
            Err(Rejection { detail: "duplicate-classification".to_owned(), subject: Some(subject) })
        },
        None => {
            proof {
                if has_duplicated_subject(items@) {
                    let k = choose|k: int| 0 <= k < items@.len() && duplicated_subject(items@, #[trigger] entry_subject(items@[k]));
                    let s = entry_subject(items@[k]);
                    let (a, b) = choose|a: int, b: int| 0 <= a < b < items@.len() && #[trigger] entry_subject(items@[a]) == s
                        && #[trigger] entry_subject(items@[b]) == s;
                    let x = parsed_view[a];
                    lemma_text_le_order(x@.subject, x@.subject, x@.subject);
                    assert(equivalent(parsed_view[a], x) && equivalent(parsed_view[b], x));
                    assert(crate::sorting::pair_like(parsed_view, x));
                    crate::sorting::lemma_pair_like_permutation(parsed_view, sorted_list@, x);
                    crate::sorting::lemma_strictly_sorted_no_pair(sorted_list@, x);
                }
                let out = classification_views(sorted_list@);
                assert forall|a: int, b: int| 0 <= a < b < out.len() implies text_lt(#[trigger] out[a].subject, #[trigger] out[b].subject) by {
                    assert(sorted_list@[a].spec_le(&sorted_list@[b]) && !sorted_list@[b].spec_le(&sorted_list@[a]));
                }
                assert forall|a: int| 0 <= a < out.len() implies declared_by_some(items@, #[trigger] out[a]) by {
                    assert(sorted_list@.contains(sorted_list@[a]));
                    assert(sorted_list@.to_multiset().count(sorted_list@[a]) > 0);
                    assert(parsed_view.contains(sorted_list@[a]));
                    let k = choose|k: int| 0 <= k < parsed_view.len() && parsed_view[k] == sorted_list@[a];
                    assert(classification_entry_matches(items@[k], out[a]));
                }
                assert forall|k: int| 0 <= k < items@.len() implies declares_some(out, #[trigger] items@[k]) by {
                    assert(parsed_view.contains(parsed_view[k]));
                    assert(parsed_view.to_multiset().count(parsed_view[k]) > 0);
                    assert(sorted_list@.contains(parsed_view[k]));
                    let a = choose|a: int| 0 <= a < sorted_list@.len() && sorted_list@[a] == parsed_view[k];
                    assert(classification_entry_matches(items@[k], out[a]));
                }
            }
            Ok(sorted_list)
        },
    }
}


// ---------------------------------------------------------------------
// Declassification grants

impl Ordered for Condition {
    open spec fn spec_le(&self, other: &Self) -> bool {
        self.spec_order() <= other.spec_order()
    }

    proof fn lemma_total(a: &Self, b: &Self) {
    }

    proof fn lemma_transitive(a: &Self, b: &Self, c: &Self) {
    }

    fn le(&self, other: &Self) -> (r: bool) {
        self.order() <= other.order()
    }
}

/// The condition an item spells, if any.
pub open spec fn condition_of(v: JsonValue) -> Option<Condition> {
    match text_of(Some(v)) {
        Some(t) => Condition::spec_parse(t),
        None => None,
    }
}

/// Whether some item is not a condition token.
pub open spec fn has_bad_condition(items: Seq<JsonValue>) -> bool {
    exists|i: int| 0 <= i < items.len() && condition_of(#[trigger] items[i]) is None
}

/// The `conditions` member: absent, or an array of at most 8 tokens.
pub open spec fn conditions_error(m: Option<JsonValue>) -> bool {
    match m {
        None => false,
        Some(x) => match array_of(Some(x)) {
            None => true,
            Some(items) => items.len() > 8 || has_bad_condition(items),
        },
    }
}

/// Canonical conditions: strictly increasing and the same set as the
/// items spell.
pub open spec fn conditions_match(m: Option<JsonValue>, cs: Seq<Condition>) -> bool {
    match array_of(m) {
        None => cs.len() == 0,
        Some(items) => conditions_canonical(items, cs),
    }
}

/// `c` is spelled by some item.
pub open spec fn spelled_by_some(items: Seq<JsonValue>, c: Condition) -> bool {
    exists|k: int| 0 <= k < items.len() && #[trigger] condition_of(items[k]) == Some(c)
}

/// Canonical conditions of a list of condition items.
pub open spec fn conditions_canonical(items: Seq<JsonValue>, cs: Seq<Condition>) -> bool {
    &&& forall|i: int, j: int| 0 <= i < j < cs.len() ==> (#[trigger] cs[i]).spec_order() < (#[trigger] cs[j]).spec_order()
    &&& forall|i: int| 0 <= i < cs.len() ==> spelled_by_some(items, #[trigger] cs[i])
    &&& forall|k: int| 0 <= k < items.len() ==> cs.contains(#[trigger] condition_of(items[k]).unwrap())
}

fn conditions(items: &Vec<JsonValue>) -> (r: Result<Vec<Condition>, Rejection>)
    ensures
        if items@.len() > 8 || has_bad_condition(items@) {
            r matches Err(e) && rejects(e, "conditions"@)
        } else {
            r matches Ok(cs) && conditions_canonical(items@, cs@)
        },
{
    if items.len() > 8 {
        return Err(reject("conditions"));
    }
    let mut parsed: Vec<Condition> = Vec::new();
    let mut i: usize = 0;
    while i < items.len()
        invariant
            i <= items@.len(),
            parsed@.len() == i,
            forall|j: int| 0 <= j < i ==> condition_of(#[trigger] items@[j]) == Some(parsed@[j]),
        decreases items@.len() - i,
    {
        let c = match as_text(&items[i]) {
            Some(t) => match Condition::parse(t) {
                Some(c) => c,
                None => return Err(reject("conditions")),
            },
            None => return Err(reject("conditions")),
        };
        parsed.push(c);
        i = i + 1;
    }
    let ghost parsed_view = parsed@;
    let out = crate::sorting::sort_dedup(parsed);
    proof {
        assert(!has_bad_condition(items@)) by {
            if has_bad_condition(items@) {
                let i = choose|i: int| 0 <= i < items@.len() && condition_of(#[trigger] items@[i]) is None;
                assert(condition_of(items@[i]) == Some(parsed_view[i]));
            }
        }
        assert forall|a: int, b: int| 0 <= a < b < out@.len() implies (#[trigger] out@[a]).spec_order() < (#[trigger] out@[b]).spec_order() by {
            assert(out@[a].spec_le(&out@[b]) && !out@[b].spec_le(&out@[a]));
        }
        assert forall|a: int| 0 <= a < out@.len() implies spelled_by_some(items@, #[trigger] out@[a]) by {
            assert(parsed_view.contains(out@[a]));
            let k = choose|k: int| 0 <= k < parsed_view.len() && parsed_view[k] == out@[a];
            assert(condition_of(items@[k]) == Some(out@[a]));
        }
        assert forall|k: int| 0 <= k < items@.len() implies out@.contains(#[trigger] condition_of(items@[k]).unwrap()) by {
            assert(crate::sorting::covered(out@, parsed_view[k]));
            let a = choose|a: int| 0 <= a < out@.len() && #[trigger] equivalent(out@[a], parsed_view[k]);
            assert(out@[a] == parsed_view[k]);
        }
    }
    Ok(out)
}

/// One subject-bound declassification grant.
#[derive(Debug, PartialEq, Eq)]
pub struct Declassification {
    id: ContractRef,
    subject: SubjectPath,
    from_kind: DataKind,
    to_kind: DataKind,
    approved_by: ReviewRef,
    justification: BoundedText,
    conditions: Vec<Condition>,
    expires_at: Option<IsoTimestamp>,
}

/// The contract-level content of a grant.
pub struct DeclassificationView {
    pub id: Seq<char>,
    pub subject: Seq<char>,
    pub from_kind: DataKind,
    pub to_kind: DataKind,
    pub approved_by: Seq<char>,
    pub justification: Seq<char>,
    pub conditions: Seq<Condition>,
    pub expires_at: Option<Seq<char>>,
}

impl View for Declassification {
    type V = DeclassificationView;

    closed spec fn view(&self) -> DeclassificationView {
        DeclassificationView {
            id: self.id@,
            subject: self.subject@,
            from_kind: self.from_kind,
            to_kind: self.to_kind,
            approved_by: self.approved_by@,
            justification: self.justification@,
            conditions: self.conditions@,
            expires_at: match self.expires_at {
                Some(t) => Some(t@),
                None => None,
            },
        }
    }
}

impl Clone for Declassification {
    fn clone(&self) -> (r: Declassification)
        ensures
            r@ == self@,
    {
        let mut conditions: Vec<Condition> = Vec::new();
        let mut i: usize = 0;
        while i < self.conditions.len()
            invariant
                i <= self.conditions@.len(),
                conditions@ == self.conditions@.subrange(0, i as int),
            decreases self.conditions@.len() - i,
        {
            conditions.push(self.conditions[i]);
            assert(conditions@ =~= self.conditions@.subrange(0, i + 1));
            i = i + 1;
        }
        assert(self.conditions@.subrange(0, self.conditions@.len() as int) =~= self.conditions@);
        Declassification {
            id: self.id.clone(),
            subject: self.subject.clone(),
            from_kind: self.from_kind,
            to_kind: self.to_kind,
            approved_by: self.approved_by.clone(),
            justification: self.justification.clone(),
            conditions,
            expires_at: match &self.expires_at {
                Some(t) => Some(t.clone()),
                None => None,
            },
        }
    }
}

impl Declassification {
    /// The exact grant identity.
    pub fn id(&self) -> (r: &ContractRef)
        ensures
            r@ == self@.id,
    {
        &self.id
    }

    /// The granted subject.
    pub fn subject(&self) -> (r: &SubjectPath)
        ensures
            r@ == self@.subject,
    {
        &self.subject
    }

    /// The kind being lowered.
    pub fn from_kind(&self) -> (r: DataKind)
        ensures
            r == self@.from_kind,
    {
        self.from_kind
    }

    /// The kind being reached.
    pub fn to_kind(&self) -> (r: DataKind)
        ensures
            r == self@.to_kind,
    {
        self.to_kind
    }

    /// The opaque review reference.
    pub fn approved_by(&self) -> (r: &ReviewRef)
        ensures
            r@ == self@.approved_by,
    {
        &self.approved_by
    }

    /// The bounded justification.
    pub fn justification(&self) -> (r: &BoundedText)
        ensures
            r@ == self@.justification,
    {
        &self.justification
    }

    /// The closed conditions, canonically ordered, deduplicated.
    pub fn conditions(&self) -> (r: &[Condition])
        ensures
            r@ == self@.conditions,
    {
        self.conditions.as_slice()
    }

    /// The optional expiry timestamp.
    pub fn expires_at(&self) -> (r: Option<&IsoTimestamp>)
        ensures
            match r {
                Some(t) => self@.expires_at == Some(t@),
                None => self@.expires_at is None,
            },
    {
        match &self.expires_at {
            Some(t) => Some(t),
            None => None,
        }
    }
}

/// Grants sort by subject, then by grant id.
pub open spec fn grant_le(a: DeclassificationView, b: DeclassificationView) -> bool {
    text_lt(a.subject, b.subject) || (a.subject == b.subject && text_le(a.id, b.id))
}

impl Ordered for Declassification {
    open spec fn spec_le(&self, other: &Self) -> bool {
        grant_le(self@, other@)
    }

    proof fn lemma_total(a: &Self, b: &Self) {
        lemma_text_le_order(a@.subject, b@.subject, a@.subject);
        lemma_text_le_order(a@.id, b@.id, a@.id);
        crate::text::lemma_text_lt_total(a@.subject, b@.subject);
    }

    proof fn lemma_transitive(a: &Self, b: &Self, c: &Self) {
        lemma_text_le_order(a@.id, b@.id, c@.id);
        if text_lt(a@.subject, b@.subject) && text_lt(b@.subject, c@.subject) {
            crate::text::lemma_text_lt_transitive(a@.subject, b@.subject, c@.subject);
        }
    }

    fn le(&self, other: &Self) -> (r: bool) {
        let a = self.subject.as_str();
        let b = other.subject.as_str();
        crate::text::str_lt(a, b) || (str_eq(a, b) && !crate::text::str_lt(other.id.as_str(), self.id.as_str()))
    }
}

/// Why one grant is refused, if it is.
pub open spec fn grant_entry_error(v: JsonValue) -> Option<Seq<char>> {
    if !is_object(v) {
        Some("grant-shape"@)
    } else if !members_within(v, grant_keys()) {
        Some("unknown-field"@)
    } else if text_member(v, "id"@) is None || !is_contract_ref(text_member(v, "id"@).unwrap()) {
        Some("grant-id"@)
    } else if text_member(v, "subject"@) is None || subject_error(text_member(v, "subject"@).unwrap()) is Some {
        Some("subject"@)
    } else if kind_member(v, "fromKind"@) is None {
        Some("from-kind"@)
    } else if kind_member(v, "toKind"@) is None {
        Some("to-kind"@)
    } else if text_member(v, "approvedBy"@) is None || review_ref_error(text_member(v, "approvedBy"@).unwrap()) is Some {
        Some("approved-by"@)
    } else if text_member(v, "justification"@) is None || bounded_text_error(text_member(v, "justification"@).unwrap()) is Some {
        Some("justification"@)
    } else if conditions_error(member(v, "conditions"@)) {
        Some("conditions"@)
    } else if member(v, "expiresAt"@) is Some && (text_member(v, "expiresAt"@) is None
        || !is_timestamp(text_member(v, "expiresAt"@).unwrap())) {
        Some("expires-at"@)
    } else {
        None
    }
}

/// The grant a valid entry declares.
pub open spec fn grant_entry_matches(v: JsonValue, g: DeclassificationView) -> bool {
    &&& g.id == text_member(v, "id"@).unwrap()
    &&& g.subject == text_member(v, "subject"@).unwrap()
    &&& g.from_kind == kind_member(v, "fromKind"@).unwrap()
    &&& g.to_kind == kind_member(v, "toKind"@).unwrap()
    &&& g.approved_by == text_member(v, "approvedBy"@).unwrap()
    &&& g.justification == text_member(v, "justification"@).unwrap()
    &&& conditions_match(member(v, "conditions"@), g.conditions)
    &&& g.expires_at == text_member(v, "expiresAt"@)
}

/// Parse one declassification grant.
pub fn grant_entry(v: &JsonValue) -> (r: Result<Declassification, Rejection>)
    ensures
        match grant_entry_error(*v) {
            Some(d) => r matches Err(e) && rejects(e, d),
            None => r matches Ok(g) && grant_entry_matches(*v, g@),
        },
{
    match v {
        JsonValue::Object(_) => {},
        _ => return Err(reject("grant-shape")),
    }
    if !check_members(v, &grant_key_list()) {
        return Err(reject("unknown-field"));
    }
    let id = match get_text(v, "id") {
        Some(t) => match ContractRef::parse(t) {
            Ok(x) => x,
            Err(_) => return Err(reject("grant-id")),
        },
        None => return Err(reject("grant-id")),
    };
    let subject = match get_text(v, "subject") {
        Some(t) => match SubjectPath::parse(t) {
            Ok(x) => x,
            Err(_) => return Err(reject("subject")),
        },
        None => return Err(reject("subject")),
    };
    let from_kind = kind_of(v, "fromKind", "from-kind")?;
    let to_kind = kind_of(v, "toKind", "to-kind")?;
    let approved_by = match get_text(v, "approvedBy") {
        Some(t) => match ReviewRef::parse(t) {
            Ok(x) => x,
            Err(_) => return Err(reject("approved-by")),
        },
        None => return Err(reject("approved-by")),
    };
    let justification = match get_text(v, "justification") {
        Some(t) => match BoundedText::parse(t) {
            Ok(x) => x,
            Err(_) => return Err(reject("justification")),
        },
        None => return Err(reject("justification")),
    };
    let conditions = match get(v, "conditions") {
        None => Vec::new(),
        Some(JsonValue::Array(items)) => conditions(items)?,
        Some(_) => return Err(reject("conditions")),
    };
    let expires_at = match get(v, "expiresAt") {
        None => None,
        Some(JsonValue::Text(t)) => match IsoTimestamp::parse(t.as_str()) {
            Ok(x) => Some(x),
            Err(_) => return Err(reject("expires-at")),
        },
        Some(_) => return Err(reject("expires-at")),
    };
    Ok(Declassification { id, subject, from_kind, to_kind, approved_by, justification, conditions, expires_at })
}


/// The views of a list of grants.
pub open spec fn grant_views(s: Seq<Declassification>) -> Seq<DeclassificationView> {
    s.map_values(|g: Declassification| g@)
}

/// The kind a grant entry lowers to.
pub open spec fn entry_to_kind(v: JsonValue) -> DataKind {
    kind_member(v, "toKind"@).unwrap()
}

/// Two distinct grants of subject `s` reach different kinds.
pub open spec fn contradicting_subject(items: Seq<JsonValue>, s: Seq<char>) -> bool {
    exists|i: int, j: int| 0 <= i < j < items.len() && #[trigger] entry_subject(items[i]) == s
        && #[trigger] entry_subject(items[j]) == s && entry_to_kind(items[i]) != entry_to_kind(items[j])
}

/// Two distinct grants name subject `s`.
pub open spec fn shared_grant_subject(items: Seq<JsonValue>, s: Seq<char>) -> bool {
    exists|i: int, j: int| 0 <= i < j < items.len() && #[trigger] entry_subject(items[i]) == s
        && #[trigger] entry_subject(items[j]) == s
}

/// Some subject is named by two grants.
pub open spec fn has_shared_grant_subject(items: Seq<JsonValue>) -> bool {
    exists|i: int, j: int| 0 <= i < j < items.len() && #[trigger] entry_subject(items[i]) == #[trigger] entry_subject(items[j])
}

/// Some subject has contradicting grants.
pub open spec fn has_contradiction(items: Seq<JsonValue>) -> bool {
    exists|i: int| 0 <= i < items.len() && contradicting_subject(items, #[trigger] entry_subject(items[i]))
}

/// A refusal naming a subject with contradicting grants, or, for a
/// duplicate, a subject named by two grants.
pub open spec fn names_contradiction(e: Rejection, d: Seq<char>, items: Seq<JsonValue>) -> bool {
    &&& e.detail@ == d
    &&& e.subject is Some
    &&& if d == "contradicting-grant"@ {
        contradicting_subject(items, e.subject.unwrap()@)
    } else {
        shared_grant_subject(items, e.subject.unwrap()@)
    }
}

/// The first refused grant's detail, in document order.
pub open spec fn grant_items_error(items: Seq<JsonValue>) -> Option<Seq<char>>
    decreases items.len(),
{
    if items.len() == 0 {
        None
    } else {
        match grant_entry_error(items[0]) {
            Some(d) => Some(d),
            None => grant_items_error(items.drop_first()),
        }
    }
}

/// The grant list of a document.
pub open spec fn declassifications_outcome(items: Seq<JsonValue>) -> Outcome {
    if items.len() > 256 {
        Outcome::Reject("declassification-list"@)
    } else if grant_items_error(items) is Some {
        Outcome::Reject(grant_items_error(items).unwrap())
    } else if has_contradiction(items) {
        Outcome::RejectSubject("contradicting-grant"@)
    } else if has_shared_grant_subject(items) {
        Outcome::RejectSubject("duplicate-grant"@)
    } else {
        Outcome::Accept
    }
}

/// Some entry declares `g`.
pub open spec fn grant_declared_by_some(items: Seq<JsonValue>, g: DeclassificationView) -> bool {
    exists|k: int| 0 <= k < items.len() && #[trigger] grant_entry_matches(items[k], g)
}

/// Some member of `out` is what entry `v` declares.
pub open spec fn grant_declares_some(out: Seq<DeclassificationView>, v: JsonValue) -> bool {
    exists|i: int| 0 <= i < out.len() && #[trigger] grant_entry_matches(v, out[i])
}

/// The accepted grants: one per entry, ordered by subject then id.
pub open spec fn declassifications_match(items: Seq<JsonValue>, out: Seq<DeclassificationView>) -> bool {
    &&& out.len() == items.len()
    &&& forall|i: int, j: int| 0 <= i < j < out.len() ==> grant_le(#[trigger] out[i], #[trigger] out[j])
    &&& forall|i: int| 0 <= i < out.len() ==> grant_declared_by_some(items, #[trigger] out[i])
    &&& forall|k: int| 0 <= k < items.len() ==> grant_declares_some(out, #[trigger] items[k])
}

proof fn lemma_grant_items_error_prefix(items: Seq<JsonValue>, i: int)
    requires
        0 <= i <= items.len(),
        forall|j: int| 0 <= j < i ==> grant_entry_error(#[trigger] items[j]) is None,
    ensures
        grant_items_error(items) == grant_items_error(items.subrange(i, items.len() as int)),
    decreases i,
{
    if i > 0 {
        assert(items.drop_first().subrange(i - 1, items.len() - 1) =~= items.subrange(i, items.len() as int));
        assert forall|j: int| 0 <= j < i - 1 implies grant_entry_error(#[trigger] items.drop_first()[j]) is None by {
            assert(items.drop_first()[j] == items[j + 1]);
        }
        lemma_grant_items_error_prefix(items.drop_first(), i - 1);
    } else {
        assert(items.subrange(0, items.len() as int) =~= items);
    }
}

/// In a sorted grant list without adjacent contradictions, any two
/// grants of one subject reach the same kind.
proof fn lemma_no_adjacent_contradiction(s: Seq<Declassification>, i: int, j: int)
    requires
        sorted(s),
        0 <= i < j < s.len(),
        s[i]@.subject == s[j]@.subject,
        forall|k: int| 0 <= k && k + 1 < s.len() && (#[trigger] s[k])@.subject == s[k + 1]@.subject ==> s[k]@.to_kind == s[k + 1]@.to_kind,
    ensures
        s[i]@.to_kind == s[j]@.to_kind,
    decreases j - i,
{
    if j > i + 1 {
        let m = j - 1;
        assert(s[i].spec_le(&s[m]));
        assert(s[m].spec_le(&s[j]));
        crate::text::lemma_text_lt_total(s[i]@.subject, s[m]@.subject);
        if text_lt(s[i]@.subject, s[m]@.subject) {
            if text_lt(s[m]@.subject, s[j]@.subject) {
                crate::text::lemma_text_lt_transitive(s[i]@.subject, s[m]@.subject, s[j]@.subject);
                crate::text::lemma_text_lt_irreflexive(s[i]@.subject);
            }
            crate::text::lemma_text_lt_irreflexive(s[i]@.subject);
        }
        if text_lt(s[m]@.subject, s[i]@.subject) {
            if text_lt(s[i]@.subject, s[m]@.subject) {
                crate::text::lemma_text_lt_transitive(s[i]@.subject, s[m]@.subject, s[i]@.subject);
            }
            crate::text::lemma_text_lt_irreflexive(s[i]@.subject);
        }
        assert(s[m]@.subject == s[j]@.subject);
        assert(agree(s[m]@, s[m + 1]@));
        lemma_no_adjacent_contradiction(s, i, m);
    }
}

/// Two grants agree: another subject, or the same kind.
pub open spec fn agree(a: DeclassificationView, b: DeclassificationView) -> bool {
    a.subject == b.subject ==> a.to_kind == b.to_kind
}

/// No adjacent pair of a grant list disagrees.
pub open spec fn adjacent_agree(s: Seq<Declassification>, upto: int) -> bool {
    forall|k: int| 0 <= k < upto && k + 1 < s.len() ==> agree(#[trigger] s[k]@, s[k + 1]@)
}

/// The first adjacent pair of a grant list with one subject and two
/// different kinds.
fn adjacent_contradiction(s: &Vec<Declassification>) -> (r: Option<usize>)
    ensures
        match r {
            Some(p) => p + 1 < s@.len() && s@[p as int]@.subject == s@[p + 1]@.subject
                && s@[p as int]@.to_kind != s@[p + 1]@.to_kind,
            None => adjacent_agree(s@, s@.len() as int),
        },
{
    let n = s.len();
    if n < 2 {
        return None;
    }
    let mut p: usize = 0;
    while p < n - 1
        invariant
            n == s@.len(),
            n >= 2,
            p <= n,
            adjacent_agree(s@, p as int),
        decreases n - p,
    {
        if str_eq(s[p].subject().as_str(), s[p + 1].subject().as_str()) && s[p].to_kind() != s[p + 1].to_kind() {
            return Some(p);
        }
        p = p + 1;
    }
    None
}

/// The first grant, in document order, whose subject an earlier grant
/// already names.
fn first_shared_subject(parsed: &Vec<Declassification>) -> (r: Option<usize>)
    ensures
        match r {
            Some(j) => j < parsed@.len() && exists|i: int| 0 <= i < j && #[trigger] parsed@[i]@.subject == parsed@[j as int]@.subject,
            None => forall|i: int, j: int| 0 <= i < j < parsed@.len() ==> #[trigger] parsed@[i]@.subject != #[trigger] parsed@[j]@.subject,
        },
{
    let mut j: usize = 0;
    while j < parsed.len()
        invariant
            j <= parsed@.len(),
            forall|a: int, b: int| 0 <= a < b < j ==> #[trigger] parsed@[a]@.subject != #[trigger] parsed@[b]@.subject,
        decreases parsed@.len() - j,
    {
        let mut i: usize = 0;
        while i < j
            invariant
                j < parsed@.len(),
                i <= j,
                forall|a: int| 0 <= a < i ==> #[trigger] parsed@[a]@.subject != parsed@[j as int]@.subject,
            decreases j - i,
        {
            if str_eq(parsed[i].subject().as_str(), parsed[j].subject().as_str()) {
                return Some(j);
            }
            i = i + 1;
        }
        j = j + 1;
    }
    None
}

proof fn lemma_found_shared(items: Seq<JsonValue>, parsed: Seq<Declassification>, j: int)
    requires
        parsed.len() == items.len(),
        forall|k: int| 0 <= k < items.len() ==> grant_entry_matches(items[k], (#[trigger] parsed[k])@),
        0 <= j < parsed.len(),
        exists|i: int| 0 <= i < j && #[trigger] parsed[i]@.subject == parsed[j]@.subject,
    ensures
        shared_grant_subject(items, parsed[j]@.subject),
        has_shared_grant_subject(items),
{
    let i = choose|i: int| 0 <= i < j && #[trigger] parsed[i]@.subject == parsed[j]@.subject;
    assert(grant_entry_matches(items[i], parsed[i]@));
    assert(grant_entry_matches(items[j], parsed[j]@));
    assert(entry_subject(items[i]) == parsed[i]@.subject);
    assert(entry_subject(items[j]) == parsed[j]@.subject);
}

proof fn lemma_no_shared(items: Seq<JsonValue>, parsed: Seq<Declassification>)
    requires
        parsed.len() == items.len(),
        forall|k: int| 0 <= k < items.len() ==> grant_entry_matches(items[k], (#[trigger] parsed[k])@),
        forall|i: int, j: int| 0 <= i < j < parsed.len() ==> #[trigger] parsed[i]@.subject != #[trigger] parsed[j]@.subject,
    ensures
        !has_shared_grant_subject(items),
{
    if has_shared_grant_subject(items) {
        let (a, b) = choose|a: int, b: int| 0 <= a < b < items.len()
            && #[trigger] entry_subject(items[a]) == #[trigger] entry_subject(items[b]);
        assert(grant_entry_matches(items[a], parsed[a]@));
        assert(grant_entry_matches(items[b], parsed[b]@));
        assert(entry_subject(items[a]) == parsed[a]@.subject);
        assert(entry_subject(items[b]) == parsed[b]@.subject);
        assert(parsed[a]@.subject != parsed[b]@.subject);
    }
}

proof fn lemma_found_contradiction(items: Seq<JsonValue>, parsed: Seq<Declassification>, s: Seq<Declassification>, p: int)
    requires
        parsed.len() == items.len(),
        forall|j: int| 0 <= j < items.len() ==> grant_entry_matches(items[j], (#[trigger] parsed[j])@),
        s.to_multiset() == parsed.to_multiset(),
        0 <= p && p + 1 < s.len(),
        s[p]@.subject == s[p + 1]@.subject,
        s[p]@.to_kind != s[p + 1]@.to_kind,
    ensures
        contradicting_subject(items, s[p]@.subject),
{
    broadcast use vstd::seq_lib::group_to_multiset_ensures;
    let x = s[p];
    let y = s[p + 1];
    assert(s.contains(x) && s.contains(y));
    assert(s.to_multiset().count(x) > 0);
    assert(s.to_multiset().count(y) > 0);
    assert(parsed.contains(x) && parsed.contains(y));
    let u = choose|u: int| 0 <= u < parsed.len() && parsed[u] == x;
    let w = choose|w: int| 0 <= w < parsed.len() && parsed[w] == y;
    assert(u != w);
    if u < w {
        assert(entry_subject(items[u]) == x@.subject && entry_subject(items[w]) == x@.subject);
    } else {
        assert(entry_subject(items[w]) == x@.subject && entry_subject(items[u]) == x@.subject);
    }
}

proof fn lemma_no_contradiction(items: Seq<JsonValue>, parsed: Seq<Declassification>, s: Seq<Declassification>)
    requires
        parsed.len() == items.len(),
        forall|j: int| 0 <= j < items.len() ==> grant_entry_matches(items[j], (#[trigger] parsed[j])@),
        s.to_multiset() == parsed.to_multiset(),
        sorted(s),
        adjacent_agree(s, s.len() as int),
    ensures
        !has_contradiction(items),
{
    broadcast use vstd::seq_lib::group_to_multiset_ensures;
    if has_contradiction(items) {
        let k = choose|k: int| 0 <= k < items.len() && contradicting_subject(items, #[trigger] entry_subject(items[k]));
        let t = entry_subject(items[k]);
        let (a, b) = choose|a: int, b: int| 0 <= a < b < items.len() && #[trigger] entry_subject(items[a]) == t
            && #[trigger] entry_subject(items[b]) == t && entry_to_kind(items[a]) != entry_to_kind(items[b]);
        let x = parsed[a];
        let y = parsed[b];
        assert(x != y);
        assert(parsed.contains(x) && parsed.contains(y));
        assert(parsed.to_multiset().count(x) > 0);
        assert(parsed.to_multiset().count(y) > 0);
        assert(s.contains(x) && s.contains(y));
        let u = choose|u: int| 0 <= u < s.len() && s[u] == x;
        let w = choose|w: int| 0 <= w < s.len() && s[w] == y;
        if u < w {
            lemma_no_adjacent_contradiction(s, u, w);
        } else {
            lemma_no_adjacent_contradiction(s, w, u);
        }
    }
}

proof fn lemma_grants_match(items: Seq<JsonValue>, parsed: Seq<Declassification>, s: Seq<Declassification>)
    requires
        parsed.len() == items.len(),
        forall|j: int| 0 <= j < items.len() ==> grant_entry_matches(items[j], (#[trigger] parsed[j])@),
        s.to_multiset() == parsed.to_multiset(),
        s.len() == parsed.len(),
        sorted(s),
    ensures
        declassifications_match(items, grant_views(s)),
{
    broadcast use vstd::seq_lib::group_to_multiset_ensures;
    let out = grant_views(s);
    assert forall|a: int| 0 <= a < out.len() implies grant_declared_by_some(items, #[trigger] out[a]) by {
        assert(s.contains(s[a]));
        assert(s.to_multiset().count(s[a]) > 0);
        assert(parsed.contains(s[a]));
        let k = choose|k: int| 0 <= k < parsed.len() && parsed[k] == s[a];
        assert(grant_entry_matches(items[k], out[a]));
    }
    assert forall|k: int| 0 <= k < items.len() implies grant_declares_some(out, #[trigger] items[k]) by {
        assert(parsed.contains(parsed[k]));
        assert(parsed.to_multiset().count(parsed[k]) > 0);
        assert(s.contains(parsed[k]));
        let a = choose|a: int| 0 <= a < s.len() && s[a] == parsed[k];
        assert(grant_entry_matches(items[k], out[a]));
    }
    assert forall|a: int, b: int| 0 <= a < b < out.len() implies grant_le(#[trigger] out[a], #[trigger] out[b]) by {
        assert(s[a].spec_le(&s[b]));
    }
}

/// Order parsed grants canonically and refuse a subject with
/// contradicting grants, then one named by two grants.
fn settle_grants(items: &Vec<JsonValue>, parsed: Vec<Declassification>) -> (r: Result<Vec<Declassification>, Rejection>)
    requires
        parsed@.len() == items@.len(),
        forall|j: int| 0 <= j < items@.len() ==> grant_entry_matches(items@[j], (#[trigger] parsed@[j])@),
    ensures
        if has_contradiction(items@) {
            r matches Err(e) && names_contradiction(e, "contradicting-grant"@, items@)
        } else if has_shared_grant_subject(items@) {
            r matches Err(e) && names_contradiction(e, "duplicate-grant"@, items@)
        } else {
            r matches Ok(out) && declassifications_match(items@, grant_views(out@))
        },
{
    let ghost parsed_view = parsed@;
    let shared = first_shared_subject(&parsed);
    let shared_subject: Option<String> = match shared {
        Some(j) => Some(parsed[j].subject().as_str().to_owned()),
        None => None,
    };
    let sorted_list = sort(parsed);
    match adjacent_contradiction(&sorted_list) {
        Some(p) => {
            let subject = sorted_list[p].subject().as_str().to_owned();
            proof {
                lemma_found_contradiction(items@, parsed_view, sorted_list@, p as int);
                assert(subject@ == sorted_list@[p as int]@.subject);
                assert(contradicting_subject(items@, subject@));
                let (a, b) = choose|a: int, b: int| 0 <= a < b < items@.len() && #[trigger] entry_subject(items@[a]) == subject@
                    && #[trigger] entry_subject(items@[b]) == subject@ && entry_to_kind(items@[a]) != entry_to_kind(items@[b]);
                assert(contradicting_subject(items@, entry_subject(items@[a])));
                assert(has_contradiction(items@));
            }
            Err(Rejection { detail: "contradicting-grant".to_owned(), subject: Some(subject) })
        },
        None => {
            proof {
                lemma_no_contradiction(items@, parsed_view, sorted_list@);
            }
            match shared_subject {
                Some(subject) => {
                    let j = shared.unwrap();
                    proof {
                        reveal_strlit("duplicate-grant");
                        reveal_strlit("contradicting-grant");
                        assert("duplicate-grant"@.len() != "contradicting-grant"@.len());
                        lemma_found_shared(items@, parsed_view, j as int);
                    }
                    Err(Rejection { detail: "duplicate-grant".to_owned(), subject: Some(subject) })
                },
                None => {
                    proof {
                        lemma_no_shared(items@, parsed_view);
                        lemma_grants_match(items@, parsed_view, sorted_list@);
                    }
                    Ok(sorted_list)
                },
            }
        },
    }
}

/// Parse every grant; order canonically by subject then id and refuse
/// contradicting grants of one subject and subjects named twice.
pub fn declassifications(items: &Vec<JsonValue>) -> (r: Result<Vec<Declassification>, Rejection>)
    ensures
        match declassifications_outcome(items@) {
            Outcome::Accept => r matches Ok(out) && declassifications_match(items@, grant_views(out@)),
            Outcome::Reject(d) => r matches Err(e) && rejects(e, d),
            Outcome::RejectSubject(d) => r matches Err(e) && names_contradiction(e, d, items@),
        },
{
    if items.len() > 256 {
        return Err(reject("declassification-list"));
    }
    let mut parsed: Vec<Declassification> = Vec::new();
    let mut i: usize = 0;
    while i < items.len()
        invariant
            i <= items@.len(),
            items@.len() <= 256,
            parsed@.len() == i,
            forall|j: int| 0 <= j < i ==> grant_entry_error(#[trigger] items@[j]) is None,
            forall|j: int| 0 <= j < i ==> grant_entry_matches(items@[j], (#[trigger] parsed@[j])@),
        decreases items@.len() - i,
    {
        proof { lemma_grant_items_error_prefix(items@, i as int); }
        let g = match grant_entry(&items[i]) {
            Ok(g) => g,
            Err(e) => {
                proof {
                    assert(items@.subrange(i as int, items@.len() as int)[0] == items@[i as int]);
                }
                return Err(e);
            },
        };
        parsed.push(g);
        i = i + 1;
    }
    proof {
        lemma_grant_items_error_prefix(items@, items@.len() as int);
        assert(grant_items_error(items@.subrange(items@.len() as int, items@.len() as int)) is None);
    }
    settle_grants(items, parsed)
}

// ---------------------------------------------------------------------
// Open questions

/// One registered open question.
#[derive(Clone, Debug, PartialEq, Eq)]
pub struct OpenQuestion {
    id: QuestionId,
    question: BoundedText,
    subject: Option<SubjectPath>,
}

/// The contract-level content of an open question.
pub struct OpenQuestionView {
    pub id: Seq<char>,
    pub question: Seq<char>,
    pub subject: Option<Seq<char>>,
}

impl View for OpenQuestion {
    type V = OpenQuestionView;

    closed spec fn view(&self) -> OpenQuestionView {
        OpenQuestionView {
            id: self.id@,
            question: self.question@,
            subject: match self.subject {
                Some(s) => Some(s@),
                None => None,
            },
        }
    }
}

impl OpenQuestion {
    /// The question id.
    pub fn id(&self) -> (r: &QuestionId)
        ensures
            r@ == self@.id,
    {
        &self.id
    }

    /// The bounded question text.
    pub fn question(&self) -> (r: &BoundedText)
        ensures
            r@ == self@.question,
    {
        &self.question
    }

    /// The optional related subject.
    pub fn subject(&self) -> (r: Option<&SubjectPath>)
        ensures
            match r {
                Some(s) => self@.subject == Some(s@),
                None => self@.subject is None,
            },
    {
        match &self.subject {
            Some(s) => Some(s),
            None => None,
        }
    }
}

impl Ordered for OpenQuestion {
    open spec fn spec_le(&self, other: &Self) -> bool {
        text_le(self@.id, other@.id)
    }

    proof fn lemma_total(a: &Self, b: &Self) {
        lemma_text_le_order(a@.id, b@.id, a@.id);
    }

    proof fn lemma_transitive(a: &Self, b: &Self, c: &Self) {
        lemma_text_le_order(a@.id, b@.id, c@.id);
    }

    fn le(&self, other: &Self) -> (r: bool) {
        !crate::text::str_lt(other.id.as_str(), self.id.as_str())
    }
}

/// Why one open question is refused, if it is.
pub open spec fn question_entry_error(v: JsonValue) -> Option<Seq<char>> {
    if !is_object(v) {
        Some("open-question-shape"@)
    } else if !members_within(v, open_question_keys()) {
        Some("unknown-field"@)
    } else if text_member(v, "id"@) is None || label_error(text_member(v, "id"@).unwrap()) is Some {
        Some("question-id"@)
    } else if text_member(v, "question"@) is None || bounded_text_error(text_member(v, "question"@).unwrap()) is Some {
        Some("question"@)
    } else if member(v, "subject"@) is Some && (text_member(v, "subject"@) is None
        || subject_error(text_member(v, "subject"@).unwrap()) is Some) {
        Some("subject"@)
    } else {
        None
    }
}

/// The question a valid entry declares.
pub open spec fn question_entry_matches(v: JsonValue, q: OpenQuestionView) -> bool {
    &&& q.id == text_member(v, "id"@).unwrap()
    &&& q.question == text_member(v, "question"@).unwrap()
    &&& q.subject == text_member(v, "subject"@)
}

/// Parse one open question.
pub fn question_entry(v: &JsonValue) -> (r: Result<OpenQuestion, Rejection>)
    ensures
        match question_entry_error(*v) {
            Some(d) => r matches Err(e) && rejects(e, d),
            None => r matches Ok(q) && question_entry_matches(*v, q@),
        },
{
    match v {
        JsonValue::Object(_) => {},
        _ => return Err(reject("open-question-shape")),
    }
    if !check_members(v, &open_question_key_list()) {
        return Err(reject("unknown-field"));
    }
    let id = match get_text(v, "id") {
        Some(t) => match QuestionId::parse(t) {
            Ok(x) => x,
            Err(_) => return Err(reject("question-id")),
        },
        None => return Err(reject("question-id")),
    };
    let question = match get_text(v, "question") {
        Some(t) => match BoundedText::parse(t) {
            Ok(x) => x,
            Err(_) => return Err(reject("question")),
        },
        None => return Err(reject("question")),
    };
    let subject = match get(v, "subject") {
        None => None,
        Some(JsonValue::Text(t)) => match SubjectPath::parse(t.as_str()) {
            Ok(x) => Some(x),
            Err(_) => return Err(reject("subject")),
        },
        Some(_) => return Err(reject("subject")),
    };
    Ok(OpenQuestion { id, question, subject })
}

/// The views of a list of open questions.
pub open spec fn question_views(s: Seq<OpenQuestion>) -> Seq<OpenQuestionView> {
    s.map_values(|q: OpenQuestion| q@)
}

/// The id an entry declares.
pub open spec fn entry_id(v: JsonValue) -> Seq<char> {
    text_member(v, "id"@).unwrap()
}

/// Two distinct entries declare one id.
pub open spec fn has_duplicated_id(items: Seq<JsonValue>) -> bool {
    exists|i: int, j: int| 0 <= i < j < items.len() && #[trigger] entry_id(items[i]) == #[trigger] entry_id(items[j])
}

/// The first refused question's detail, in document order.
pub open spec fn question_items_error(items: Seq<JsonValue>) -> Option<Seq<char>>
    decreases items.len(),
{
    if items.len() == 0 {
        None
    } else {
        match question_entry_error(items[0]) {
            Some(d) => Some(d),
            None => question_items_error(items.drop_first()),
        }
    }
}

/// The open-question list of a document.
pub open spec fn questions_outcome(items: Seq<JsonValue>) -> Outcome {
    if items.len() > 256 {
        Outcome::Reject("open-question-list"@)
    } else if question_items_error(items) is Some {
        Outcome::Reject(question_items_error(items).unwrap())
    } else if has_duplicated_id(items) {
        Outcome::Reject("duplicate-question"@)
    } else {
        Outcome::Accept
    }
}

/// Some entry declares `q`.
pub open spec fn question_declared_by_some(items: Seq<JsonValue>, q: OpenQuestionView) -> bool {
    exists|k: int| 0 <= k < items.len() && #[trigger] question_entry_matches(items[k], q)
}

/// Some member of `out` is what entry `v` declares.
pub open spec fn question_declares_some(out: Seq<OpenQuestionView>, v: JsonValue) -> bool {
    exists|i: int| 0 <= i < out.len() && #[trigger] question_entry_matches(v, out[i])
}

/// The accepted questions: one per entry, strictly ordered by id.
pub open spec fn questions_match(items: Seq<JsonValue>, out: Seq<OpenQuestionView>) -> bool {
    &&& out.len() == items.len()
    &&& forall|i: int, j: int| 0 <= i < j < out.len() ==> text_lt(#[trigger] out[i].id, #[trigger] out[j].id)
    &&& forall|i: int| 0 <= i < out.len() ==> question_declared_by_some(items, #[trigger] out[i])
    &&& forall|k: int| 0 <= k < items.len() ==> question_declares_some(out, #[trigger] items[k])
}

proof fn lemma_question_items_error_prefix(items: Seq<JsonValue>, i: int)
    requires
        0 <= i <= items.len(),
        forall|j: int| 0 <= j < i ==> question_entry_error(#[trigger] items[j]) is None,
    ensures
        question_items_error(items) == question_items_error(items.subrange(i, items.len() as int)),
    decreases i,
{
    if i > 0 {
        assert(items.drop_first().subrange(i - 1, items.len() - 1) =~= items.subrange(i, items.len() as int));
        assert forall|j: int| 0 <= j < i - 1 implies question_entry_error(#[trigger] items.drop_first()[j]) is None by {
            assert(items.drop_first()[j] == items[j + 1]);
        }
        lemma_question_items_error_prefix(items.drop_first(), i - 1);
    } else {
        assert(items.subrange(0, items.len() as int) =~= items);
    }
}

proof fn lemma_questions_dup(items: Seq<JsonValue>, parsed: Seq<OpenQuestion>, s: Seq<OpenQuestion>, p: int)
    requires
        parsed.len() == items.len(),
        forall|j: int| 0 <= j < items.len() ==> question_entry_matches(items[j], (#[trigger] parsed[j])@),
        s.to_multiset() == parsed.to_multiset(),
        0 <= p && p + 1 < s.len(),
        equivalent(s[p], s[p + 1]),
    ensures
        has_duplicated_id(items),
{
    let x = s[p];
    OpenQuestion::lemma_total(&x, &x);
    assert(equivalent(s[p], x) && equivalent(s[p + 1], x));
    assert(crate::sorting::pair_like(s, x));
    crate::sorting::lemma_pair_like_permutation(s, parsed, x);
    let (a, b) = choose|a: int, b: int| 0 <= a < b < parsed.len() && #[trigger] equivalent(parsed[a], x)
        && #[trigger] equivalent(parsed[b], x);
    lemma_text_le_order(parsed[a]@.id, x@.id, x@.id);
    lemma_text_le_order(parsed[b]@.id, x@.id, x@.id);
    assert(entry_id(items[a]) == entry_id(items[b]));
}

#[verifier::spinoff_prover]
proof fn lemma_questions_match(items: Seq<JsonValue>, parsed: Seq<OpenQuestion>, s: Seq<OpenQuestion>)
    requires
        parsed.len() == items.len(),
        forall|j: int| 0 <= j < items.len() ==> question_entry_matches(items[j], (#[trigger] parsed[j])@),
        s.to_multiset() == parsed.to_multiset(),
        s.len() == parsed.len(),
        crate::sorting::strictly_sorted(s),
    ensures
        questions_match(items, question_views(s)),
        !has_duplicated_id(items),
{
    broadcast use vstd::seq_lib::group_to_multiset_ensures;
    if has_duplicated_id(items) {
        let (a, b) = choose|a: int, b: int| 0 <= a < b < items.len() && #[trigger] entry_id(items[a]) == #[trigger] entry_id(items[b]);
        let x = parsed[a];
        lemma_text_le_order(x@.id, x@.id, x@.id);
        assert(equivalent(parsed[a], x) && equivalent(parsed[b], x));
        assert(crate::sorting::pair_like(parsed, x));
        crate::sorting::lemma_pair_like_permutation(parsed, s, x);
        crate::sorting::lemma_strictly_sorted_no_pair(s, x);
    }
    let out = question_views(s);
    assert forall|a: int, b: int| 0 <= a < b < out.len() implies text_lt(#[trigger] out[a].id, #[trigger] out[b].id) by {
        assert(s[a].spec_le(&s[b]) && !s[b].spec_le(&s[a]));
    }
    assert forall|a: int| 0 <= a < out.len() implies question_declared_by_some(items, #[trigger] out[a]) by {
        assert(s.contains(s[a]));
        assert(s.to_multiset().count(s[a]) > 0);
        assert(parsed.contains(s[a]));
        let k = choose|k: int| 0 <= k < parsed.len() && parsed[k] == s[a];
        assert(question_entry_matches(items[k], out[a]));
    }
    assert forall|k: int| 0 <= k < items.len() implies question_declares_some(out, #[trigger] items[k]) by {
        assert(parsed.contains(parsed[k]));
        assert(parsed.to_multiset().count(parsed[k]) > 0);
        assert(s.contains(parsed[k]));
        let a = choose|a: int| 0 <= a < s.len() && s[a] == parsed[k];
        assert(question_entry_matches(items[k], out[a]));
    }
}

/// Parse every open question; order canonically by id and refuse
/// duplicate ids.
pub fn open_questions(items: &Vec<JsonValue>) -> (r: Result<Vec<OpenQuestion>, Rejection>)
    ensures
        match questions_outcome(items@) {
            Outcome::Accept => r matches Ok(out) && questions_match(items@, question_views(out@)),
            Outcome::Reject(d) => r matches Err(e) && rejects(e, d),
            Outcome::RejectSubject(d) => r is Err,
        },
{
    if items.len() > 256 {
        return Err(reject("open-question-list"));
    }
    let mut parsed: Vec<OpenQuestion> = Vec::new();
    let mut i: usize = 0;
    while i < items.len()
        invariant
            i <= items@.len(),
            items@.len() <= 256,
            parsed@.len() == i,
            forall|j: int| 0 <= j < i ==> question_entry_error(#[trigger] items@[j]) is None,
            forall|j: int| 0 <= j < i ==> question_entry_matches(items@[j], (#[trigger] parsed@[j])@),
        decreases items@.len() - i,
    {
        proof { lemma_question_items_error_prefix(items@, i as int); }
        let q = match question_entry(&items[i]) {
            Ok(q) => q,
            Err(e) => {
                proof {
                    assert(items@.subrange(i as int, items@.len() as int)[0] == items@[i as int]);
                }
                return Err(e);
            },
        };
        parsed.push(q);
        i = i + 1;
    }
    proof {
        lemma_question_items_error_prefix(items@, items@.len() as int);
        assert(question_items_error(items@.subrange(items@.len() as int, items@.len() as int)) is None);
    }
    let ghost parsed_view = parsed@;
    let sorted_list = sort(parsed);
    match crate::sorting::first_adjacent_pair(&sorted_list) {
        Some(p) => {
            proof { lemma_questions_dup(items@, parsed_view, sorted_list@, p as int); }
            Err(reject("duplicate-question"))
        },
        None => {
            proof { lemma_questions_match(items@, parsed_view, sorted_list@); }
            Ok(sorted_list)
        },
    }
}


// ---------------------------------------------------------------------
// The attachment

/// The typed data-classification attachment.
#[derive(Debug)]
pub struct Attachment {
    attachment_revision: String,
    project_id: SemanticId,
    model_ref: (String, Sha256Digest),
    ir_ref: (String, Sha256Digest),
    defaults: Defaults,
    classifications: Vec<Classification>,
    declassifications: Vec<Declassification>,
    open_questions: Vec<OpenQuestion>,
}

/// The contract-level content of an attachment.
pub struct AttachmentView {
    pub attachment_revision: Seq<char>,
    pub project_id: Seq<char>,
    pub model_ref: (Seq<char>, Seq<char>),
    pub ir_ref: (Seq<char>, Seq<char>),
    pub defaults: (Profile, DataKind, DataKind),
    pub classifications: Seq<ClassificationView>,
    pub declassifications: Seq<DeclassificationView>,
    pub open_questions: Seq<OpenQuestionView>,
}

impl View for Attachment {
    type V = AttachmentView;

    closed spec fn view(&self) -> AttachmentView {
        AttachmentView {
            attachment_revision: self.attachment_revision@,
            project_id: self.project_id@,
            model_ref: (self.model_ref.0@, self.model_ref.1@),
            ir_ref: (self.ir_ref.0@, self.ir_ref.1@),
            defaults: self.defaults@,
            classifications: classification_views(self.classifications@),
            declassifications: grant_views(self.declassifications@),
            open_questions: question_views(self.open_questions@),
        }
    }
}

/// The array under a member.
pub open spec fn list_member(v: JsonValue, key: Seq<char>) -> Option<Seq<JsonValue>> {
    array_of(member(v, key))
}

/// The verdict on one attachment document.
pub open spec fn attachment_outcome(v: JsonValue) -> Outcome {
    if !is_object(v) {
        Outcome::Reject("top-level-shape"@)
    } else if !members_within(v, top_level_keys()) {
        Outcome::Reject("unknown-field"@)
    } else if text_member(v, "schemaVersion"@) != Some("lekalo/data-classification/v0.4.0"@) {
        Outcome::Reject("schema-version"@)
    } else if text_member(v, "identity"@) != Some("dev.lekalo.data-classification@0.4.0"@) {
        Outcome::Reject("contract-identity"@)
    } else if revision_result(text_member(v, "attachmentRevision"@), "attachment-revision"@) is Err {
        Outcome::Reject("attachment-revision"@)
    } else if text_member(v, "projectId"@) is None || !is_root_id(text_member(v, "projectId"@).unwrap()) {
        Outcome::Reject("project-id"@)
    } else if member(v, "modelRef"@) is None {
        Outcome::Reject("model-ref"@)
    } else if model_pin_result(member(v, "modelRef"@).unwrap()) is Err {
        Outcome::Reject(model_pin_result(member(v, "modelRef"@).unwrap())->Err_0)
    } else if member(v, "irRef"@) is None {
        Outcome::Reject("ir-ref"@)
    } else if ir_pin_result(member(v, "irRef"@).unwrap()) is Err {
        Outcome::Reject(ir_pin_result(member(v, "irRef"@).unwrap())->Err_0)
    } else if member(v, "defaults"@) is None {
        Outcome::Reject("defaults"@)
    } else if defaults_result(member(v, "defaults"@).unwrap()) is Err {
        Outcome::Reject(defaults_result(member(v, "defaults"@).unwrap())->Err_0)
    } else if list_member(v, "classifications"@) is None {
        Outcome::Reject("classification-list"@)
    } else if !(classifications_outcome(list_member(v, "classifications"@).unwrap()) is Accept) {
        classifications_outcome(list_member(v, "classifications"@).unwrap())
    } else if list_member(v, "declassifications"@) is None {
        Outcome::Reject("declassification-list"@)
    } else if !(declassifications_outcome(list_member(v, "declassifications"@).unwrap()) is Accept) {
        declassifications_outcome(list_member(v, "declassifications"@).unwrap())
    } else if list_member(v, "openQuestions"@) is None {
        Outcome::Reject("open-question-list"@)
    } else {
        questions_outcome(list_member(v, "openQuestions"@).unwrap())
    }
}

/// The attachment an accepted document declares.
pub open spec fn attachment_matches(v: JsonValue, a: AttachmentView) -> bool {
    &&& a.attachment_revision == text_member(v, "attachmentRevision"@).unwrap()
    &&& a.project_id == text_member(v, "projectId"@).unwrap()
    &&& a.model_ref == model_pin_result(member(v, "modelRef"@).unwrap())->Ok_0
    &&& a.ir_ref == ir_pin_result(member(v, "irRef"@).unwrap())->Ok_0
    &&& a.defaults == defaults_result(member(v, "defaults"@).unwrap())->Ok_0
    &&& classifications_match(list_member(v, "classifications"@).unwrap(), a.classifications)
    &&& declassifications_match(list_member(v, "declassifications"@).unwrap(), a.declassifications)
    &&& questions_match(list_member(v, "openQuestions"@).unwrap(), a.open_questions)
}

/// The subject a refusal names belongs to a duplicate classification
/// or to contradicting grants of the document.
pub open spec fn offending_subject(v: JsonValue, s: Seq<char>) -> bool {
    duplicated_subject(list_member(v, "classifications"@).unwrap(), s)
        || contradicting_subject(list_member(v, "declassifications"@).unwrap(), s)
        || shared_grant_subject(list_member(v, "declassifications"@).unwrap(), s)
}

/// The outcome an attachment refusal reports.
pub open spec fn refusal_fits(v: JsonValue, outcome: Outcome, e: Rejection) -> bool {
    match outcome {
        Outcome::Accept => false,
        Outcome::Reject(d) => rejects(e, d),
        Outcome::RejectSubject(d) => e.detail@ == d && e.subject is Some && offending_subject(v, e.subject.unwrap()@),
    }
}

fn array_member<'a>(v: &'a JsonValue, key: &str, detail: &str) -> (r: Result<&'a Vec<JsonValue>, Rejection>)
    ensures
        match list_member(*v, key@) {
            Some(items) => r matches Ok(x) && x@ == items,
            None => r matches Err(e) && rejects(e, detail@),
        },
{
    match get_array(v, key) {
        Some(items) => Ok(items),
        None => Err(reject(detail)),
    }
}

/// Normalize one document into a validated attachment, or refuse it
/// with the first violation.
pub fn attachment_document(v: &JsonValue) -> (r: Result<Attachment, Rejection>)
    ensures
        match attachment_outcome(*v) {
            Outcome::Accept => r matches Ok(a) && attachment_matches(*v, a@),
            outcome => r matches Err(e) && refusal_fits(*v, outcome, e),
        },
{
    match v {
        JsonValue::Object(_) => {},
        _ => return Err(reject("top-level-shape")),
    }
    if !check_members(v, &top_level_key_list()) {
        return Err(reject("unknown-field"));
    }
    match get_text(v, "schemaVersion") {
        Some(t) => if !str_eq(t, "lekalo/data-classification/v0.4.0") {
            return Err(reject("schema-version"));
        },
        None => return Err(reject("schema-version")),
    }
    match get_text(v, "identity") {
        Some(t) => if !str_eq(t, "dev.lekalo.data-classification@0.4.0") {
            return Err(reject("contract-identity"));
        },
        None => return Err(reject("contract-identity")),
    }
    let attachment_revision = match get_text(v, "attachmentRevision") {
        Some(t) => if check_revision(t) {
            t.to_owned()
        } else {
            return Err(reject("attachment-revision"));
        },
        None => return Err(reject("attachment-revision")),
    };
    let project_id = match get_text(v, "projectId") {
        Some(t) => match SemanticId::parse_root(t) {
            Ok(id) => id,
            Err(_) => return Err(reject("project-id")),
        },
        None => return Err(reject("project-id")),
    };
    let model_ref = match get(v, "modelRef") {
        Some(m) => model_pin(m)?,
        None => return Err(reject("model-ref")),
    };
    let ir_ref = match get(v, "irRef") {
        Some(m) => ir_pin(m)?,
        None => return Err(reject("ir-ref")),
    };
    let defaults = match get(v, "defaults") {
        Some(m) => defaults(m)?,
        None => return Err(reject("defaults")),
    };
    let class_items = array_member(v, "classifications", "classification-list")?;
    let classifications = match classifications(class_items) {
        Ok(c) => c,
        Err(e) => return Err(e),
    };
    let grant_items = array_member(v, "declassifications", "declassification-list")?;
    let declassifications = match declassifications(grant_items) {
        Ok(g) => g,
        Err(e) => return Err(e),
    };
    let question_items = array_member(v, "openQuestions", "open-question-list")?;
    let open_questions = open_questions(question_items)?;
    Ok(Attachment {
        attachment_revision,
        project_id,
        model_ref,
        ir_ref,
        defaults,
        classifications,
        declassifications,
        open_questions,
    })
}

impl Attachment {
    /// The exact attachment revision.
    pub fn attachment_revision(&self) -> (r: &str)
        ensures
            r@ == self@.attachment_revision,
    {
        self.attachment_revision.as_str()
    }

    /// The stable project identity.
    pub fn project_id(&self) -> (r: &SemanticId)
        ensures
            r@ == self@.project_id,
    {
        &self.project_id
    }

    /// The bound Model pin `(modelVersion, digest)`.
    pub fn model_ref(&self) -> (r: &(String, Sha256Digest))
        ensures
            (r.0@, r.1@) == self@.model_ref,
    {
        &self.model_ref
    }

    /// The bound IR pin `(irVersion, digest)`.
    pub fn ir_ref(&self) -> (r: &(String, Sha256Digest))
        ensures
            (r.0@, r.1@) == self@.ir_ref,
    {
        &self.ir_ref
    }

    /// The per-profile secure defaults.
    pub fn defaults(&self) -> (r: &Defaults)
        ensures
            r@ == self@.defaults,
    {
        &self.defaults
    }

    /// Every classification entry, canonically ordered by subject.
    pub fn classifications(&self) -> (r: &[Classification])
        ensures
            classification_views(r@) == self@.classifications,
    {
        self.classifications.as_slice()
    }

    /// Every declassification grant, ordered by subject then grant id.
    pub fn declassifications(&self) -> (r: &[Declassification])
        ensures
            grant_views(r@) == self@.declassifications,
    {
        self.declassifications.as_slice()
    }

    /// Every registered open question, canonically ordered by id.
    pub fn open_questions(&self) -> (r: &[OpenQuestion])
        ensures
            question_views(r@) == self@.open_questions,
    {
        self.open_questions.as_slice()
    }
}


/// The verdict on one attachment document given as bytes.
pub open spec fn attachment_bytes_outcome(bytes: Seq<u8>) -> Outcome {
    if bytes.len() > 8 * 1024 * 1024 {
        Outcome::Reject("document-bytes"@)
    } else if !vstd::utf8::valid_utf8(bytes) {
        Outcome::Reject("invalid-encoding"@)
    } else if crate::json::parsed_json(bytes) is None {
        Outcome::Reject("json-syntax"@)
    } else {
        attachment_outcome(crate::json::parsed_json(bytes).unwrap())
    }
}

/// The refusal set of an attachment document: one
/// `classification.unknown-kind` item with the refusal detail, and the
/// offending subject when there is one.
pub open spec fn refusal_set(v: JsonValue, outcome: Outcome, set: Seq<crate::diagnostics::item::DiagnosticView>) -> bool {
    match outcome {
        Outcome::Accept => false,
        Outcome::Reject(d) => super::diagnostic::classification_set(set, "classification.unknown-kind"@, d, None),
        Outcome::RejectSubject(d) => exists|s: Seq<char>| offending_subject(v, s)
            && #[trigger] super::diagnostic::classification_set(set, "classification.unknown-kind"@, d, Some(s)),
    }
}

/// The registered refusal set of one rejection.
pub fn rejection_set(e: &Rejection) -> (r: crate::diagnostics::set::DiagnosticSet)
    ensures
        super::diagnostic::classification_set(r@, "classification.unknown-kind"@, e.detail@,
            match e.subject { Some(s) => Some(s@), None => None }),
{
    match &e.subject {
        Some(s) => super::diagnostic::document_invalid(e.detail.as_str(), Some(s.as_str())),
        None => super::diagnostic::document_invalid(e.detail.as_str(), None),
    }
}

impl Attachment {
    /// Normalize one document into a validated attachment, or return
    /// the registered refusal set.
    pub fn from_value(json: &JsonValue) -> (r: Result<Attachment, crate::diagnostics::set::DiagnosticSet>)
        ensures
            match attachment_outcome(*json) {
                Outcome::Accept => r matches Ok(a) && attachment_matches(*json, a@),
                outcome => r matches Err(set) && refusal_set(*json, outcome, set@),
            },
    {
        match attachment_document(json) {
            Ok(a) => Ok(a),
            Err(e) => {
                let set = rejection_set(&e);
                proof {
                    if let Some(s) = e.subject {
                        assert(super::diagnostic::classification_set(set@, "classification.unknown-kind"@, e.detail@, Some(s@)));
                    }
                }
                Err(set)
            },
        }
    }

    /// Parse one attachment document (exact UTF-8 JSON bytes), or return
    /// the registered refusal set.
    pub fn parse(bytes: &[u8]) -> (r: Result<Attachment, crate::diagnostics::set::DiagnosticSet>)
        ensures
            match attachment_bytes_outcome(bytes@) {
                Outcome::Accept => r matches Ok(a) && attachment_matches(crate::json::parsed_json(bytes@).unwrap(), a@),
                outcome => r matches Err(set) && refusal_set(crate::json::parsed_json(bytes@).unwrap(), outcome, set@),
            },
    {
        if bytes.len() > 8 * 1024 * 1024 {
            return Err(super::diagnostic::document_invalid("document-bytes", None));
        }
        if !crate::text::is_utf8(bytes) {
            return Err(super::diagnostic::document_invalid("invalid-encoding", None));
        }
        match crate::json::parse_json(bytes) {
            Some(json) => Attachment::from_value(&json),
            None => Err(super::diagnostic::document_invalid("json-syntax", None)),
        }
    }
}

} // verus!
