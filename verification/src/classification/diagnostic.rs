//! The registered `classification.*` diagnostics. Subjects are never
//! carried raw: a subject appears only as `subject-<sha256 hex>`.

use vstd::prelude::*;
use vstd::string::StringExecFns;
use crate::diagnostics::item::DiagnosticView;
use crate::diagnostics::registry::{RuleRow, find_rule, rule_table};
use crate::diagnostics::set::{DiagnosticSet, build, singleton_set};
use crate::diagnostics::types::{DataValue, Status};
use crate::digest::{hex_of, sha256_hex, sha256_of};
use crate::text::{bound_text, bounded_prefix};

verus! {

/// Any wire or declaration violation of the attachment.
pub const DOCUMENT_INVALID: &'static str = "classification.unknown-kind";

/// A subject that does not resolve in the bound IR.
pub const UNKNOWN_SUBJECT: &'static str = "classification.unknown-subject";

/// A subject addressed twice.
pub const DUPLICATE_SUBJECT: &'static str = "classification.duplicate-subject";

/// Two entries declaring different kinds for one subject.
pub const CONFLICTING_KIND: &'static str = "classification.conflicting-kind";

/// A grant lowering an unlowerable kind or naming an unknown subject.
pub const INVALID_DECLASSIFICATION: &'static str = "classification.invalid-declassification";

/// A grant without a usable review reference.
pub const MISSING_APPROVAL: &'static str = "classification.missing-approval";

/// A grant expired against the evaluation date.
pub const EXPIRED_DECLASSIFICATION: &'static str = "classification.expired-declassification";

/// A grant approved by its own declaration.
pub const SELF_APPROVED: &'static str = "classification.self-approved";

/// A classification attachment without its governing policy.
pub const POLICY_MISSING: &'static str = "classification.policy-missing";

/// A resolved kind without a policy rule row.
pub const KIND_RULE_MISSING: &'static str = "classification.kind-rule-missing";

/// A sink ceiling below a reachable kind.
pub const SINK_CEILING_EXCEEDED: &'static str = "classification.sink-ceiling-exceeded";

/// An unclassified subject on a sensitive sink.
pub const UNCLASSIFIED_SENSITIVE_SINK: &'static str = "classification.unclassified-sensitive-sink";

/// A custody mismatch on the project identity.
pub const CUSTODY_PROJECT: &'static str = "classification.custody-project";

/// A stale or foreign `modelRef` pin.
pub const CUSTODY_MODEL: &'static str = "classification.custody-model";

/// A stale or foreign `irRef` pin.
pub const CUSTODY_IR: &'static str = "classification.custody-ir";

/// A missing or malformed `approvedBy` review reference.
pub const MALFORMED_REVIEW_REF: &'static str = "classification.malformed-review-ref";

/// The opaque spelling of a subject: `subject-` and the hex SHA-256 of
/// its UTF-8 bytes.
pub open spec fn subject_tag(subject: Seq<char>) -> Seq<char> {
    "subject-"@ + hex_of(sha256_of(vstd::utf8::encode_utf8(subject)))
}

/// The detail tag: the detail, then `:` and the subject tag when a
/// subject is given.
pub open spec fn detail_tag(detail: Seq<char>, subject: Option<Seq<char>>) -> Seq<char> {
    match subject {
        Some(s) => detail + ":"@ + subject_tag(s),
        None => detail,
    }
}

/// Whether a data member is the token `key: text`.
pub open spec fn token_member(m: (Seq<char>, DataValue), key: Seq<char>, text: Seq<char>) -> bool {
    &&& m.0 == key
    &&& m.1 matches DataValue::Token(t) && t@ == text
}

/// Whether a diagnostic is the bare item of the registered rule `rule`.
pub open spec fn rule_item(d: DiagnosticView, rule: Seq<char>) -> bool {
    let row = find_rule(rule_table(), rule).unwrap();
    &&& d.id == rule
    &&& d.code == row.code
    &&& d.severity == row.severity
    &&& d.category == row.category
    &&& d.message_id == rule
    &&& d.message == row.message
    &&& d.symbol is None
    &&& d.path is None
    &&& d.range is None
}

/// The one-item set of a classification rule with its detail tag and,
/// for a subject, its opaque subject token.
pub open spec fn classification_set(v: Seq<DiagnosticView>, rule: Seq<char>, detail: Seq<char>, subject: Option<Seq<char>>) -> bool {
    &&& v.len() == 1
    &&& rule_item(v[0], rule)
    &&& v[0].data.len() == if subject is Some { 2int } else { 1int }
    &&& token_member(v[0].data[0], "detail"@, bounded_prefix(detail_tag(detail, subject), 256))
    &&& (subject matches Some(s) ==> token_member(v[0].data[1], "subject"@, bounded_prefix(subject_tag(s), 256)))
}

/// The rows of the classification rules: registered, active, and
/// allowed under `invalid`.
pub open spec fn usable_rule(rule: Seq<char>) -> bool {
    &&& find_rule(rule_table(), rule) is Some
    &&& find_rule(rule_table(), rule).unwrap().id == rule
    &&& find_rule(rule_table(), rule).unwrap().lifecycle == crate::diagnostics::registry::Lifecycle::Active
    &&& find_rule(rule_table(), rule).unwrap().statuses.contains(Status::Invalid)
}

proof fn lemma_usable(row: RuleRow, rule: Seq<char>)
    requires
        find_rule(rule_table(), rule) == Some(row),
        row.id == rule,
        row.lifecycle == crate::diagnostics::registry::Lifecycle::Active,
        row.statuses[0] == Status::Invalid,
        row.statuses.len() >= 1,
    ensures
        usable_rule(rule),
{
    assert(row.statuses.contains(Status::Invalid));
}

/// One classification item under the `invalid` status.
fn item_set(rule: &str, detail: &str, subject: Option<&str>) -> (r: DiagnosticSet)
    requires
        usable_rule(rule@),
    ensures
        classification_set(r@, rule@, detail@, match subject { Some(s) => Some(s@), None => None }),
{
    let mut tag = String::new();
    tag.append(detail);
    let mut data: Vec<(String, DataValue)> = Vec::new();
    match subject {
        Some(s) => {
            let hex = sha256_hex(s.as_bytes());
            let mut subject_token = String::new();
            subject_token.append("subject-");
            subject_token.append(hex.as_str());
            tag.append(":");
            tag.append(subject_token.as_str());
            proof {
                assert(subject_token@ == subject_tag(s@));
                assert(tag@ =~= detail_tag(detail@, Some(s@)));
            }
            data.push(("detail".to_owned(), DataValue::Token(bound_text(tag.as_str(), 256))));
            data.push(("subject".to_owned(), DataValue::Token(bound_text(subject_token.as_str(), 256))));
        },
        None => {
            data.push(("detail".to_owned(), DataValue::Token(bound_text(tag.as_str(), 256))));
        },
    }
    let ghost data_v = data@;
    let built = build(rule, None, None, data);
    match built {
        Ok(d) => {
            match DiagnosticSet::of_one(d, Status::Invalid) {
                Ok(set) => set,
                Err(_) => singleton_set("diagnostics.registry-invalid"),
            }
        },
        Err(_) => singleton_set("diagnostics.registry-invalid"),
    }
}

/// One wire or declaration violation of the classification attachment.
pub fn document_invalid(detail: &str, subject: Option<&str>) -> (r: DiagnosticSet)
    ensures
        classification_set(r@, "classification.unknown-kind"@, detail@, match subject { Some(s) => Some(s@), None => None }),
{
    proof {
        crate::diagnostics::registry::lemma_found_classification_unknown_kind();
        lemma_usable(find_rule(rule_table(), "classification.unknown-kind"@).unwrap(), "classification.unknown-kind"@);
    }
    item_set("classification.unknown-kind", detail, subject)
}

/// One subject that does not resolve in the bound IR.
pub fn unknown_subject(detail: &str, subject: &str) -> (r: DiagnosticSet)
    ensures
        classification_set(r@, "classification.unknown-subject"@, detail@, Some(subject@)),
{
    proof {
        crate::diagnostics::registry::lemma_found_classification_unknown_subject();
        lemma_usable(find_rule(rule_table(), "classification.unknown-subject"@).unwrap(), "classification.unknown-subject"@);
    }
    item_set("classification.unknown-subject", detail, Some(subject))
}

/// One subject addressed twice contradictorily.
pub fn duplicate_subject(detail: &str, subject: &str) -> (r: DiagnosticSet)
    ensures
        classification_set(r@, "classification.duplicate-subject"@, detail@, Some(subject@)),
{
    proof {
        crate::diagnostics::registry::lemma_found_classification_duplicate_subject();
        lemma_usable(find_rule(rule_table(), "classification.duplicate-subject"@).unwrap(), "classification.duplicate-subject"@);
    }
    item_set("classification.duplicate-subject", detail, Some(subject))
}

/// Two entries declaring different kinds for one subject.
pub fn conflicting_kind(detail: &str, subject: &str) -> (r: DiagnosticSet)
    ensures
        classification_set(r@, "classification.conflicting-kind"@, detail@, Some(subject@)),
{
    proof {
        crate::diagnostics::registry::lemma_found_classification_conflicting_kind();
        lemma_usable(find_rule(rule_table(), "classification.conflicting-kind"@).unwrap(), "classification.conflicting-kind"@);
    }
    item_set("classification.conflicting-kind", detail, Some(subject))
}

/// One grant lowering an unlowerable kind or naming an unknown subject.
pub fn invalid_declassification(detail: &str, subject: &str) -> (r: DiagnosticSet)
    ensures
        classification_set(r@, "classification.invalid-declassification"@, detail@, Some(subject@)),
{
    proof {
        crate::diagnostics::registry::lemma_found_classification_invalid_declassification();
        lemma_usable(find_rule(rule_table(), "classification.invalid-declassification"@).unwrap(), "classification.invalid-declassification"@);
    }
    item_set("classification.invalid-declassification", detail, Some(subject))
}

/// One grant without a usable review reference.
pub fn missing_approval(detail: &str, subject: &str) -> (r: DiagnosticSet)
    ensures
        classification_set(r@, "classification.missing-approval"@, detail@, Some(subject@)),
{
    proof {
        crate::diagnostics::registry::lemma_found_classification_missing_approval();
        lemma_usable(find_rule(rule_table(), "classification.missing-approval"@).unwrap(), "classification.missing-approval"@);
    }
    item_set("classification.missing-approval", detail, Some(subject))
}

/// One grant expired against the evaluation date.
pub fn expired_declassification(detail: &str, subject: &str) -> (r: DiagnosticSet)
    ensures
        classification_set(r@, "classification.expired-declassification"@, detail@, Some(subject@)),
{
    proof {
        crate::diagnostics::registry::lemma_found_classification_expired_declassification();
        lemma_usable(find_rule(rule_table(), "classification.expired-declassification"@).unwrap(), "classification.expired-declassification"@);
    }
    item_set("classification.expired-declassification", detail, Some(subject))
}

/// One grant approved by its own declaration.
pub fn self_approved(detail: &str, subject: &str) -> (r: DiagnosticSet)
    ensures
        classification_set(r@, "classification.self-approved"@, detail@, Some(subject@)),
{
    proof {
        crate::diagnostics::registry::lemma_found_classification_self_approved();
        lemma_usable(find_rule(rule_table(), "classification.self-approved"@).unwrap(), "classification.self-approved"@);
    }
    item_set("classification.self-approved", detail, Some(subject))
}

/// One classification attachment without its governing policy.
pub fn policy_missing(detail: &str) -> (r: DiagnosticSet)
    ensures
        classification_set(r@, "classification.policy-missing"@, detail@, None),
{
    proof {
        crate::diagnostics::registry::lemma_found_classification_policy_missing();
        lemma_usable(find_rule(rule_table(), "classification.policy-missing"@).unwrap(), "classification.policy-missing"@);
    }
    item_set("classification.policy-missing", detail, None)
}

/// One resolved kind without a policy rule row.
pub fn kind_rule_missing(detail: &str, subject: &str) -> (r: DiagnosticSet)
    ensures
        classification_set(r@, "classification.kind-rule-missing"@, detail@, Some(subject@)),
{
    proof {
        crate::diagnostics::registry::lemma_found_classification_kind_rule_missing();
        lemma_usable(find_rule(rule_table(), "classification.kind-rule-missing"@).unwrap(), "classification.kind-rule-missing"@);
    }
    item_set("classification.kind-rule-missing", detail, Some(subject))
}

/// One sink ceiling below a reachable kind.
pub fn sink_ceiling_exceeded(detail: &str, subject: &str) -> (r: DiagnosticSet)
    ensures
        classification_set(r@, "classification.sink-ceiling-exceeded"@, detail@, Some(subject@)),
{
    proof {
        crate::diagnostics::registry::lemma_found_classification_sink_ceiling_exceeded();
        lemma_usable(find_rule(rule_table(), "classification.sink-ceiling-exceeded"@).unwrap(), "classification.sink-ceiling-exceeded"@);
    }
    item_set("classification.sink-ceiling-exceeded", detail, Some(subject))
}

/// One unclassified subject on a sensitive sink (strict profile).
pub fn unclassified_sensitive_sink(detail: &str, subject: &str) -> (r: DiagnosticSet)
    ensures
        classification_set(r@, "classification.unclassified-sensitive-sink"@, detail@, Some(subject@)),
{
    proof {
        crate::diagnostics::registry::lemma_found_classification_unclassified_sensitive_sink();
        lemma_usable(find_rule(rule_table(), "classification.unclassified-sensitive-sink"@).unwrap(), "classification.unclassified-sensitive-sink"@);
    }
    item_set("classification.unclassified-sensitive-sink", detail, Some(subject))
}

/// One custody mismatch on the project identity of the pinned compilation.
pub fn custody_project(detail: &str) -> (r: DiagnosticSet)
    ensures
        classification_set(r@, "classification.custody-project"@, detail@, None),
{
    proof {
        crate::diagnostics::registry::lemma_found_classification_custody_project();
        lemma_usable(find_rule(rule_table(), "classification.custody-project"@).unwrap(), "classification.custody-project"@);
    }
    item_set("classification.custody-project", detail, None)
}

/// One stale or foreign `modelRef` pin.
pub fn custody_model(detail: &str) -> (r: DiagnosticSet)
    ensures
        classification_set(r@, "classification.custody-model"@, detail@, None),
{
    proof {
        crate::diagnostics::registry::lemma_found_classification_custody_model();
        lemma_usable(find_rule(rule_table(), "classification.custody-model"@).unwrap(), "classification.custody-model"@);
    }
    item_set("classification.custody-model", detail, None)
}

/// One stale or foreign `irRef` pin.
pub fn custody_ir(detail: &str) -> (r: DiagnosticSet)
    ensures
        classification_set(r@, "classification.custody-ir"@, detail@, None),
{
    proof {
        crate::diagnostics::registry::lemma_found_classification_custody_ir();
        lemma_usable(find_rule(rule_table(), "classification.custody-ir"@).unwrap(), "classification.custody-ir"@);
    }
    item_set("classification.custody-ir", detail, None)
}

/// One grant whose `approvedBy` review reference is missing or malformed.
pub fn malformed_review_ref(detail: &str) -> (r: DiagnosticSet)
    ensures
        classification_set(r@, "classification.malformed-review-ref"@, detail@, None),
{
    proof {
        crate::diagnostics::registry::lemma_found_classification_malformed_review_ref();
        lemma_usable(find_rule(rule_table(), "classification.malformed-review-ref"@).unwrap(), "classification.malformed-review-ref"@);
    }
    item_set("classification.malformed-review-ref", detail, None)
}

} // verus!
