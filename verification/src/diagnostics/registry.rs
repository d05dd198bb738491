//! The embedded diagnostic rule registry: the only source of rule
//! identity (code, category, default severity, allowed statuses,
//! default message, location requirement, and closed data fields).

use vstd::prelude::*;
use crate::text::{str_eq, text_lt};
use super::types::{Category, DataFieldType, LocationRequirement, Severity, Status};
use super::id::{is_diagnostic_code, is_rule_id};

verus! {

/// Why the registry could not be loaded.
#[derive(Clone, Debug, PartialEq, Eq)]
pub enum RegistryError {
    /// The document is not the closed registry shape.
    Malformed,
    /// The document is another registry contract.
    Unsupported,
    /// A registry invariant (order, uniqueness, identity) is broken.
    Invariant,
}

/// The lifecycle of one rule.
#[derive(Clone, Copy, Debug, PartialEq, Eq, Structural)]
pub enum Lifecycle {
    Active,
    Reserved,
    Retired,
}

/// The contract-level content of one registry row.
pub struct RuleRow {
    pub id: Seq<char>,
    pub code: Seq<char>,
    pub category: Category,
    pub severity: Severity,
    pub statuses: Seq<Status>,
    pub message: Seq<char>,
    pub location: LocationRequirement,
    pub fields: Seq<(Seq<char>, DataFieldType)>,
    pub fixes: Seq<Seq<char>>,
    pub lifecycle: Lifecycle,
}

/// One validated registry row.
#[derive(Clone, Debug, PartialEq, Eq)]
pub struct RegistryEntry {
    id: String,
    code: String,
    category: Category,
    default_severity: Severity,
    allowed_statuses: Vec<Status>,
    default_message: String,
    location_requirement: LocationRequirement,
    data_fields: Vec<(String, DataFieldType)>,
    allowed_fix_ids: Vec<String>,
    lifecycle: Lifecycle,
}

impl View for RegistryEntry {
    type V = RuleRow;

    closed spec fn view(&self) -> RuleRow {
        RuleRow {
            id: self.id@,
            code: self.code@,
            category: self.category,
            severity: self.default_severity,
            statuses: self.allowed_statuses@,
            message: self.default_message@,
            location: self.location_requirement,
            fields: self.data_fields@.map_values(|f: (String, DataFieldType)| (f.0@, f.1)),
            fixes: self.allowed_fix_ids@.map_values(|f: String| f@),
            lifecycle: self.lifecycle,
        }
    }
}

/// The rows of a list of entries.
pub open spec fn entries_view(entries: Seq<RegistryEntry>) -> Seq<RuleRow> {
    entries.map_values(|e: RegistryEntry| e@)
}

/// The first row of `rows` with rule id `id`.
pub open spec fn find_rule(rows: Seq<RuleRow>, id: Seq<char>) -> Option<RuleRow>
    decreases rows.len(),
{
    if rows.len() == 0 {
        None
    } else if rows[0].id == id {
        Some(rows[0])
    } else {
        find_rule(rows.drop_first(), id)
    }
}

/// The first field type named `name`.
pub open spec fn find_field(fields: Seq<(Seq<char>, DataFieldType)>, name: Seq<char>) -> Option<DataFieldType>
    decreases fields.len(),
{
    if fields.len() == 0 {
        None
    } else if fields[0].0 == name {
        Some(fields[0].1)
    } else {
        find_field(fields.drop_first(), name)
    }
}

impl RegistryEntry {
    /// The dotted rule id.
    pub fn id(&self) -> (r: &str)
        ensures
            r@ == self@.id,
    {
        self.id.as_str()
    }

    /// The immutable code.
    pub fn code(&self) -> (r: &str)
        ensures
            r@ == self@.code,
    {
        self.code.as_str()
    }

    /// The registered category.
    pub fn category(&self) -> (r: Category)
        ensures
            r == self@.category,
    {
        self.category
    }

    /// The registered default severity.
    pub fn default_severity(&self) -> (r: Severity)
        ensures
            r == self@.severity,
    {
        self.default_severity
    }

    /// Whether the rule may appear under an envelope status.
    pub fn allows_status(&self, status: Status) -> (r: bool)
        ensures
            r == self@.statuses.contains(status),
    {
        let mut i: usize = 0;
        while i < self.allowed_statuses.len()
            invariant
                i <= self.allowed_statuses@.len(),
                forall|j: int| 0 <= j < i ==> self.allowed_statuses@[j] != status,
            decreases self.allowed_statuses@.len() - i,
        {
            if self.allowed_statuses[i] == status {
                assert(self@.statuses[i as int] == status);
                return true;
            }
            i = i + 1;
        }
        false
    }

    /// The registered default message.
    pub fn default_message(&self) -> (r: &str)
        ensures
            r@ == self@.message,
    {
        self.default_message.as_str()
    }

    /// Where the rule must be located.
    pub fn location_requirement(&self) -> (r: LocationRequirement)
        ensures
            r == self@.location,
    {
        self.location_requirement
    }

    /// The declared type of one data field, if the rule declares it.
    pub fn data_field(&self, name: &str) -> (r: Option<DataFieldType>)
        ensures
            r == find_field(self@.fields, name@),
    {
        let ghost fields = self@.fields;
        let mut i: usize = 0;
        assert(fields.subrange(0, fields.len() as int) =~= fields);
        while i < self.data_fields.len()
            invariant
                i <= self.data_fields@.len(),
                fields == self@.fields,
                fields.len() == self.data_fields@.len(),
                find_field(fields, name@) == find_field(fields.subrange(i as int, fields.len() as int), name@),
            decreases self.data_fields@.len() - i,
        {
            assert(fields.subrange(i as int, fields.len() as int).drop_first()
                =~= fields.subrange(i + 1, fields.len() as int));
            assert(fields[i as int] == (self.data_fields@[i as int].0@, self.data_fields@[i as int].1));
            if str_eq(self.data_fields[i].0.as_str(), name) {
                return Some(self.data_fields[i].1);
            }
            i = i + 1;
        }
        None
    }

    /// Whether a fix id is registered for the rule.
    pub fn allows_fix(&self, fix: &str) -> (r: bool)
        ensures
            r == self@.fixes.contains(fix@),
    {
        let mut i: usize = 0;
        while i < self.allowed_fix_ids.len()
            invariant
                i <= self.allowed_fix_ids@.len(),
                forall|j: int| 0 <= j < i ==> self.allowed_fix_ids@[j]@ != fix@,
            decreases self.allowed_fix_ids@.len() - i,
        {
            if str_eq(self.allowed_fix_ids[i].as_str(), fix) {
                assert(self@.fixes[i as int] == fix@);
                return true;
            }
            i = i + 1;
        }
        assert forall|j: int| 0 <= j < self@.fixes.len() implies self@.fixes[j] != fix@ by {
            assert(self@.fixes[j] == self.allowed_fix_ids@[j]@);
        }
        false
    }

    /// The lifecycle.
    pub fn lifecycle(&self) -> (r: Lifecycle)
        ensures
            r == self@.lifecycle,
    {
        self.lifecycle
    }
}

/// The registered row of `adapter.diagnostic-invalid`.
pub open spec fn rule_adapter_diagnostic_invalid() -> RuleRow {
    RuleRow {
        id: "adapter.diagnostic-invalid"@,
        code: "LEK-ADP-001"@,
        category: Category::Adapter,
        severity: Severity::Error,
        statuses: seq![Status::Invalid],
        message: "A provider diagnostic was refused and replaced."@,
        location: LocationRequirement::Unlocated,
        fields: seq![("reason"@, DataFieldType::Token)],
        fixes: Seq::empty(),
        lifecycle: Lifecycle::Active,
    }
}

fn entry_adapter_diagnostic_invalid() -> (r: RegistryEntry)
    ensures
        r@ == rule_adapter_diagnostic_invalid(),
{
    let mut statuses: Vec<Status> = Vec::new();
    statuses.push(Status::Invalid);
    let mut fields: Vec<(String, DataFieldType)> = Vec::new();
    fields.push(("reason".to_owned(), DataFieldType::Token));
    let r = RegistryEntry {
        id: "adapter.diagnostic-invalid".to_owned(),
        code: "LEK-ADP-001".to_owned(),
        category: Category::Adapter,
        default_severity: Severity::Error,
        allowed_statuses: statuses,
        default_message: "A provider diagnostic was refused and replaced.".to_owned(),
        location_requirement: LocationRequirement::Unlocated,
        data_fields: fields,
        allowed_fix_ids: Vec::new(),
        lifecycle: Lifecycle::Active,
    };
    assert(r@.statuses =~= rule_adapter_diagnostic_invalid().statuses);
    assert(r@.fields =~= rule_adapter_diagnostic_invalid().fields);
    assert(r@.fixes =~= rule_adapter_diagnostic_invalid().fixes);
    r
}

/// The registered row of `classification.conflicting-kind`.
pub open spec fn rule_classification_conflicting_kind() -> RuleRow {
    RuleRow {
        id: "classification.conflicting-kind"@,
        code: "LEK-CLS-004"@,
        category: Category::Security,
        severity: Severity::Error,
        statuses: seq![Status::Invalid],
        message: "Two entries declare different kinds for one subject."@,
        location: LocationRequirement::Unlocated,
        fields: seq![("detail"@, DataFieldType::Token), ("subject"@, DataFieldType::Token)],
        fixes: Seq::empty(),
        lifecycle: Lifecycle::Active,
    }
}

fn entry_classification_conflicting_kind() -> (r: RegistryEntry)
    ensures
        r@ == rule_classification_conflicting_kind(),
{
    let mut statuses: Vec<Status> = Vec::new();
    statuses.push(Status::Invalid);
    let mut fields: Vec<(String, DataFieldType)> = Vec::new();
    fields.push(("detail".to_owned(), DataFieldType::Token));
    fields.push(("subject".to_owned(), DataFieldType::Token));
    let r = RegistryEntry {
        id: "classification.conflicting-kind".to_owned(),
        code: "LEK-CLS-004".to_owned(),
        category: Category::Security,
        default_severity: Severity::Error,
        allowed_statuses: statuses,
        default_message: "Two entries declare different kinds for one subject.".to_owned(),
        location_requirement: LocationRequirement::Unlocated,
        data_fields: fields,
        allowed_fix_ids: Vec::new(),
        lifecycle: Lifecycle::Active,
    };
    assert(r@.statuses =~= rule_classification_conflicting_kind().statuses);
    assert(r@.fields =~= rule_classification_conflicting_kind().fields);
    assert(r@.fixes =~= rule_classification_conflicting_kind().fixes);
    r
}

/// The registered row of `classification.custody-ir`.
pub open spec fn rule_classification_custody_ir() -> RuleRow {
    RuleRow {
        id: "classification.custody-ir"@,
        code: "LEK-CLS-015"@,
        category: Category::Security,
        severity: Severity::Error,
        statuses: seq![Status::Invalid, Status::Denied],
        message: "The classification IR pin is stale or foreign."@,
        location: LocationRequirement::Unlocated,
        fields: seq![("detail"@, DataFieldType::Token), ("subject"@, DataFieldType::Token)],
        fixes: Seq::empty(),
        lifecycle: Lifecycle::Active,
    }
}

fn entry_classification_custody_ir() -> (r: RegistryEntry)
    ensures
        r@ == rule_classification_custody_ir(),
{
    let mut statuses: Vec<Status> = Vec::new();
    statuses.push(Status::Invalid);
    statuses.push(Status::Denied);
    let mut fields: Vec<(String, DataFieldType)> = Vec::new();
    fields.push(("detail".to_owned(), DataFieldType::Token));
    fields.push(("subject".to_owned(), DataFieldType::Token));
    let r = RegistryEntry {
        id: "classification.custody-ir".to_owned(),
        code: "LEK-CLS-015".to_owned(),
        category: Category::Security,
        default_severity: Severity::Error,
        allowed_statuses: statuses,
        default_message: "The classification IR pin is stale or foreign.".to_owned(),
        location_requirement: LocationRequirement::Unlocated,
        data_fields: fields,
        allowed_fix_ids: Vec::new(),
        lifecycle: Lifecycle::Active,
    };
    assert(r@.statuses =~= rule_classification_custody_ir().statuses);
    assert(r@.fields =~= rule_classification_custody_ir().fields);
    assert(r@.fixes =~= rule_classification_custody_ir().fixes);
    r
}

/// The registered row of `classification.custody-model`.
pub open spec fn rule_classification_custody_model() -> RuleRow {
    RuleRow {
        id: "classification.custody-model"@,
        code: "LEK-CLS-014"@,
        category: Category::Security,
        severity: Severity::Error,
        statuses: seq![Status::Invalid, Status::Denied],
        message: "The classification model pin is stale or foreign."@,
        location: LocationRequirement::Unlocated,
        fields: seq![("detail"@, DataFieldType::Token), ("subject"@, DataFieldType::Token)],
        fixes: Seq::empty(),
        lifecycle: Lifecycle::Active,
    }
}

fn entry_classification_custody_model() -> (r: RegistryEntry)
    ensures
        r@ == rule_classification_custody_model(),
{
    let mut statuses: Vec<Status> = Vec::new();
    statuses.push(Status::Invalid);
    statuses.push(Status::Denied);
    let mut fields: Vec<(String, DataFieldType)> = Vec::new();
    fields.push(("detail".to_owned(), DataFieldType::Token));
    fields.push(("subject".to_owned(), DataFieldType::Token));
    let r = RegistryEntry {
        id: "classification.custody-model".to_owned(),
        code: "LEK-CLS-014".to_owned(),
        category: Category::Security,
        default_severity: Severity::Error,
        allowed_statuses: statuses,
        default_message: "The classification model pin is stale or foreign.".to_owned(),
        location_requirement: LocationRequirement::Unlocated,
        data_fields: fields,
        allowed_fix_ids: Vec::new(),
        lifecycle: Lifecycle::Active,
    };
    assert(r@.statuses =~= rule_classification_custody_model().statuses);
    assert(r@.fields =~= rule_classification_custody_model().fields);
    assert(r@.fixes =~= rule_classification_custody_model().fixes);
    r
}

/// The registered row of `classification.custody-project`.
pub open spec fn rule_classification_custody_project() -> RuleRow {
    RuleRow {
        id: "classification.custody-project"@,
        code: "LEK-CLS-013"@,
        category: Category::Security,
        severity: Severity::Error,
        statuses: seq![Status::Invalid, Status::Denied],
        message: "The classification project identity does not match."@,
        location: LocationRequirement::Unlocated,
        fields: seq![("detail"@, DataFieldType::Token), ("subject"@, DataFieldType::Token)],
        fixes: Seq::empty(),
        lifecycle: Lifecycle::Active,
    }
}

fn entry_classification_custody_project() -> (r: RegistryEntry)
    ensures
        r@ == rule_classification_custody_project(),
{
    let mut statuses: Vec<Status> = Vec::new();
    statuses.push(Status::Invalid);
    statuses.push(Status::Denied);
    let mut fields: Vec<(String, DataFieldType)> = Vec::new();
    fields.push(("detail".to_owned(), DataFieldType::Token));
    fields.push(("subject".to_owned(), DataFieldType::Token));
    let r = RegistryEntry {
        id: "classification.custody-project".to_owned(),
        code: "LEK-CLS-013".to_owned(),
        category: Category::Security,
        default_severity: Severity::Error,
        allowed_statuses: statuses,
        default_message: "The classification project identity does not match.".to_owned(),
        location_requirement: LocationRequirement::Unlocated,
        data_fields: fields,
        allowed_fix_ids: Vec::new(),
        lifecycle: Lifecycle::Active,
    };
    assert(r@.statuses =~= rule_classification_custody_project().statuses);
    assert(r@.fields =~= rule_classification_custody_project().fields);
    assert(r@.fixes =~= rule_classification_custody_project().fixes);
    r
}

/// The registered row of `classification.duplicate-subject`.
pub open spec fn rule_classification_duplicate_subject() -> RuleRow {
    RuleRow {
        id: "classification.duplicate-subject"@,
        code: "LEK-CLS-003"@,
        category: Category::Security,
        severity: Severity::Error,
        statuses: seq![Status::Invalid],
        message: "A classification subject is declared twice."@,
        location: LocationRequirement::Unlocated,
        fields: seq![("detail"@, DataFieldType::Token), ("subject"@, DataFieldType::Token)],
        fixes: Seq::empty(),
        lifecycle: Lifecycle::Active,
    }
}

fn entry_classification_duplicate_subject() -> (r: RegistryEntry)
    ensures
        r@ == rule_classification_duplicate_subject(),
{
    let mut statuses: Vec<Status> = Vec::new();
    statuses.push(Status::Invalid);
    let mut fields: Vec<(String, DataFieldType)> = Vec::new();
    fields.push(("detail".to_owned(), DataFieldType::Token));
    fields.push(("subject".to_owned(), DataFieldType::Token));
    let r = RegistryEntry {
        id: "classification.duplicate-subject".to_owned(),
        code: "LEK-CLS-003".to_owned(),
        category: Category::Security,
        default_severity: Severity::Error,
        allowed_statuses: statuses,
        default_message: "A classification subject is declared twice.".to_owned(),
        location_requirement: LocationRequirement::Unlocated,
        data_fields: fields,
        allowed_fix_ids: Vec::new(),
        lifecycle: Lifecycle::Active,
    };
    assert(r@.statuses =~= rule_classification_duplicate_subject().statuses);
    assert(r@.fields =~= rule_classification_duplicate_subject().fields);
    assert(r@.fixes =~= rule_classification_duplicate_subject().fixes);
    r
}

/// The registered row of `classification.expired-declassification`.
pub open spec fn rule_classification_expired_declassification() -> RuleRow {
    RuleRow {
        id: "classification.expired-declassification"@,
        code: "LEK-CLS-007"@,
        category: Category::Security,
        severity: Severity::Error,
        statuses: seq![Status::Invalid, Status::Denied],
        message: "A declassification grant has expired."@,
        location: LocationRequirement::Unlocated,
        fields: seq![("detail"@, DataFieldType::Token), ("subject"@, DataFieldType::Token)],
        fixes: Seq::empty(),
        lifecycle: Lifecycle::Active,
    }
}

fn entry_classification_expired_declassification() -> (r: RegistryEntry)
    ensures
        r@ == rule_classification_expired_declassification(),
{
    let mut statuses: Vec<Status> = Vec::new();
    statuses.push(Status::Invalid);
    statuses.push(Status::Denied);
    let mut fields: Vec<(String, DataFieldType)> = Vec::new();
    fields.push(("detail".to_owned(), DataFieldType::Token));
    fields.push(("subject".to_owned(), DataFieldType::Token));
    let r = RegistryEntry {
        id: "classification.expired-declassification".to_owned(),
        code: "LEK-CLS-007".to_owned(),
        category: Category::Security,
        default_severity: Severity::Error,
        allowed_statuses: statuses,
        default_message: "A declassification grant has expired.".to_owned(),
        location_requirement: LocationRequirement::Unlocated,
        data_fields: fields,
        allowed_fix_ids: Vec::new(),
        lifecycle: Lifecycle::Active,
    };
    assert(r@.statuses =~= rule_classification_expired_declassification().statuses);
    assert(r@.fields =~= rule_classification_expired_declassification().fields);
    assert(r@.fixes =~= rule_classification_expired_declassification().fixes);
    r
}

/// The registered row of `classification.invalid-declassification`.
pub open spec fn rule_classification_invalid_declassification() -> RuleRow {
    RuleRow {
        id: "classification.invalid-declassification"@,
        code: "LEK-CLS-005"@,
        category: Category::Security,
        severity: Severity::Error,
        statuses: seq![Status::Invalid],
        message: "A declassification grant is invalid."@,
        location: LocationRequirement::Unlocated,
        fields: seq![("detail"@, DataFieldType::Token), ("subject"@, DataFieldType::Token)],
        fixes: Seq::empty(),
        lifecycle: Lifecycle::Active,
    }
}

fn entry_classification_invalid_declassification() -> (r: RegistryEntry)
    ensures
        r@ == rule_classification_invalid_declassification(),
{
    let mut statuses: Vec<Status> = Vec::new();
    statuses.push(Status::Invalid);
    let mut fields: Vec<(String, DataFieldType)> = Vec::new();
    fields.push(("detail".to_owned(), DataFieldType::Token));
    fields.push(("subject".to_owned(), DataFieldType::Token));
    let r = RegistryEntry {
        id: "classification.invalid-declassification".to_owned(),
        code: "LEK-CLS-005".to_owned(),
        category: Category::Security,
        default_severity: Severity::Error,
        allowed_statuses: statuses,
        default_message: "A declassification grant is invalid.".to_owned(),
        location_requirement: LocationRequirement::Unlocated,
        data_fields: fields,
        allowed_fix_ids: Vec::new(),
        lifecycle: Lifecycle::Active,
    };
    assert(r@.statuses =~= rule_classification_invalid_declassification().statuses);
    assert(r@.fields =~= rule_classification_invalid_declassification().fields);
    assert(r@.fixes =~= rule_classification_invalid_declassification().fixes);
    r
}

/// The registered row of `classification.kind-rule-missing`.
pub open spec fn rule_classification_kind_rule_missing() -> RuleRow {
    RuleRow {
        id: "classification.kind-rule-missing"@,
        code: "LEK-CLS-010"@,
        category: Category::Security,
        severity: Severity::Error,
        statuses: seq![Status::Invalid],
        message: "A resolved kind has no policy rule."@,
        location: LocationRequirement::Unlocated,
        fields: seq![("detail"@, DataFieldType::Token), ("subject"@, DataFieldType::Token)],
        fixes: Seq::empty(),
        lifecycle: Lifecycle::Active,
    }
}

fn entry_classification_kind_rule_missing() -> (r: RegistryEntry)
    ensures
        r@ == rule_classification_kind_rule_missing(),
{
    let mut statuses: Vec<Status> = Vec::new();
    statuses.push(Status::Invalid);
    let mut fields: Vec<(String, DataFieldType)> = Vec::new();
    fields.push(("detail".to_owned(), DataFieldType::Token));
    fields.push(("subject".to_owned(), DataFieldType::Token));
    let r = RegistryEntry {
        id: "classification.kind-rule-missing".to_owned(),
        code: "LEK-CLS-010".to_owned(),
        category: Category::Security,
        default_severity: Severity::Error,
        allowed_statuses: statuses,
        default_message: "A resolved kind has no policy rule.".to_owned(),
        location_requirement: LocationRequirement::Unlocated,
        data_fields: fields,
        allowed_fix_ids: Vec::new(),
        lifecycle: Lifecycle::Active,
    };
    assert(r@.statuses =~= rule_classification_kind_rule_missing().statuses);
    assert(r@.fields =~= rule_classification_kind_rule_missing().fields);
    assert(r@.fixes =~= rule_classification_kind_rule_missing().fixes);
    r
}

/// The registered row of `classification.malformed-review-ref`.
pub open spec fn rule_classification_malformed_review_ref() -> RuleRow {
    RuleRow {
        id: "classification.malformed-review-ref"@,
        code: "LEK-CLS-016"@,
        category: Category::Security,
        severity: Severity::Error,
        statuses: seq![Status::Invalid, Status::Denied],
        message: "A review reference is missing or malformed."@,
        location: LocationRequirement::Unlocated,
        fields: seq![("detail"@, DataFieldType::Token), ("subject"@, DataFieldType::Token)],
        fixes: Seq::empty(),
        lifecycle: Lifecycle::Active,
    }
}

fn entry_classification_malformed_review_ref() -> (r: RegistryEntry)
    ensures
        r@ == rule_classification_malformed_review_ref(),
{
    let mut statuses: Vec<Status> = Vec::new();
    statuses.push(Status::Invalid);
    statuses.push(Status::Denied);
    let mut fields: Vec<(String, DataFieldType)> = Vec::new();
    fields.push(("detail".to_owned(), DataFieldType::Token));
    fields.push(("subject".to_owned(), DataFieldType::Token));
    let r = RegistryEntry {
        id: "classification.malformed-review-ref".to_owned(),
        code: "LEK-CLS-016".to_owned(),
        category: Category::Security,
        default_severity: Severity::Error,
        allowed_statuses: statuses,
        default_message: "A review reference is missing or malformed.".to_owned(),
        location_requirement: LocationRequirement::Unlocated,
        data_fields: fields,
        allowed_fix_ids: Vec::new(),
        lifecycle: Lifecycle::Active,
    };
    assert(r@.statuses =~= rule_classification_malformed_review_ref().statuses);
    assert(r@.fields =~= rule_classification_malformed_review_ref().fields);
    assert(r@.fixes =~= rule_classification_malformed_review_ref().fixes);
    r
}

/// The registered row of `classification.missing-approval`.
pub open spec fn rule_classification_missing_approval() -> RuleRow {
    RuleRow {
        id: "classification.missing-approval"@,
        code: "LEK-CLS-006"@,
        category: Category::Security,
        severity: Severity::Error,
        statuses: seq![Status::Invalid],
        message: "A declassification grant has no usable approval."@,
        location: LocationRequirement::Unlocated,
        fields: seq![("detail"@, DataFieldType::Token), ("subject"@, DataFieldType::Token)],
        fixes: Seq::empty(),
        lifecycle: Lifecycle::Active,
    }
}

fn entry_classification_missing_approval() -> (r: RegistryEntry)
    ensures
        r@ == rule_classification_missing_approval(),
{
    let mut statuses: Vec<Status> = Vec::new();
    statuses.push(Status::Invalid);
    let mut fields: Vec<(String, DataFieldType)> = Vec::new();
    fields.push(("detail".to_owned(), DataFieldType::Token));
    fields.push(("subject".to_owned(), DataFieldType::Token));
    let r = RegistryEntry {
        id: "classification.missing-approval".to_owned(),
        code: "LEK-CLS-006".to_owned(),
        category: Category::Security,
        default_severity: Severity::Error,
        allowed_statuses: statuses,
        default_message: "A declassification grant has no usable approval.".to_owned(),
        location_requirement: LocationRequirement::Unlocated,
        data_fields: fields,
        allowed_fix_ids: Vec::new(),
        lifecycle: Lifecycle::Active,
    };
    assert(r@.statuses =~= rule_classification_missing_approval().statuses);
    assert(r@.fields =~= rule_classification_missing_approval().fields);
    assert(r@.fixes =~= rule_classification_missing_approval().fixes);
    r
}

/// The registered row of `classification.policy-missing`.
pub open spec fn rule_classification_policy_missing() -> RuleRow {
    RuleRow {
        id: "classification.policy-missing"@,
        code: "LEK-CLS-009"@,
        category: Category::Security,
        severity: Severity::Error,
        statuses: seq![Status::Invalid],
        message: "The classification policy is missing."@,
        location: LocationRequirement::Unlocated,
        fields: seq![("detail"@, DataFieldType::Token), ("subject"@, DataFieldType::Token)],
        fixes: Seq::empty(),
        lifecycle: Lifecycle::Active,
    }
}

fn entry_classification_policy_missing() -> (r: RegistryEntry)
    ensures
        r@ == rule_classification_policy_missing(),
{
    let mut statuses: Vec<Status> = Vec::new();
    statuses.push(Status::Invalid);
    let mut fields: Vec<(String, DataFieldType)> = Vec::new();
    fields.push(("detail".to_owned(), DataFieldType::Token));
    fields.push(("subject".to_owned(), DataFieldType::Token));
    let r = RegistryEntry {
        id: "classification.policy-missing".to_owned(),
        code: "LEK-CLS-009".to_owned(),
        category: Category::Security,
        default_severity: Severity::Error,
        allowed_statuses: statuses,
        default_message: "The classification policy is missing.".to_owned(),
        location_requirement: LocationRequirement::Unlocated,
        data_fields: fields,
        allowed_fix_ids: Vec::new(),
        lifecycle: Lifecycle::Active,
    };
    assert(r@.statuses =~= rule_classification_policy_missing().statuses);
    assert(r@.fields =~= rule_classification_policy_missing().fields);
    assert(r@.fixes =~= rule_classification_policy_missing().fixes);
    r
}

/// The registered row of `classification.self-approved`.
pub open spec fn rule_classification_self_approved() -> RuleRow {
    RuleRow {
        id: "classification.self-approved"@,
        code: "LEK-CLS-008"@,
        category: Category::Security,
        severity: Severity::Error,
        statuses: seq![Status::Invalid],
        message: "A declassification grant approves itself."@,
        location: LocationRequirement::Unlocated,
        fields: seq![("detail"@, DataFieldType::Token), ("subject"@, DataFieldType::Token)],
        fixes: Seq::empty(),
        lifecycle: Lifecycle::Active,
    }
}

fn entry_classification_self_approved() -> (r: RegistryEntry)
    ensures
        r@ == rule_classification_self_approved(),
{
    let mut statuses: Vec<Status> = Vec::new();
    statuses.push(Status::Invalid);
    let mut fields: Vec<(String, DataFieldType)> = Vec::new();
    fields.push(("detail".to_owned(), DataFieldType::Token));
    fields.push(("subject".to_owned(), DataFieldType::Token));
    let r = RegistryEntry {
        id: "classification.self-approved".to_owned(),
        code: "LEK-CLS-008".to_owned(),
        category: Category::Security,
        default_severity: Severity::Error,
        allowed_statuses: statuses,
        default_message: "A declassification grant approves itself.".to_owned(),
        location_requirement: LocationRequirement::Unlocated,
        data_fields: fields,
        allowed_fix_ids: Vec::new(),
        lifecycle: Lifecycle::Active,
    };
    assert(r@.statuses =~= rule_classification_self_approved().statuses);
    assert(r@.fields =~= rule_classification_self_approved().fields);
    assert(r@.fixes =~= rule_classification_self_approved().fixes);
    r
}

/// The registered row of `classification.sink-ceiling-exceeded`.
pub open spec fn rule_classification_sink_ceiling_exceeded() -> RuleRow {
    RuleRow {
        id: "classification.sink-ceiling-exceeded"@,
        code: "LEK-CLS-011"@,
        category: Category::Security,
        severity: Severity::Error,
        statuses: seq![Status::Invalid, Status::Denied],
        message: "A sink ceiling is below a reachable kind."@,
        location: LocationRequirement::Unlocated,
        fields: seq![("detail"@, DataFieldType::Token), ("subject"@, DataFieldType::Token)],
        fixes: Seq::empty(),
        lifecycle: Lifecycle::Active,
    }
}

fn entry_classification_sink_ceiling_exceeded() -> (r: RegistryEntry)
    ensures
        r@ == rule_classification_sink_ceiling_exceeded(),
{
    let mut statuses: Vec<Status> = Vec::new();
    statuses.push(Status::Invalid);
    statuses.push(Status::Denied);
    let mut fields: Vec<(String, DataFieldType)> = Vec::new();
    fields.push(("detail".to_owned(), DataFieldType::Token));
    fields.push(("subject".to_owned(), DataFieldType::Token));
    let r = RegistryEntry {
        id: "classification.sink-ceiling-exceeded".to_owned(),
        code: "LEK-CLS-011".to_owned(),
        category: Category::Security,
        default_severity: Severity::Error,
        allowed_statuses: statuses,
        default_message: "A sink ceiling is below a reachable kind.".to_owned(),
        location_requirement: LocationRequirement::Unlocated,
        data_fields: fields,
        allowed_fix_ids: Vec::new(),
        lifecycle: Lifecycle::Active,
    };
    assert(r@.statuses =~= rule_classification_sink_ceiling_exceeded().statuses);
    assert(r@.fields =~= rule_classification_sink_ceiling_exceeded().fields);
    assert(r@.fixes =~= rule_classification_sink_ceiling_exceeded().fixes);
    r
}

/// The registered row of `classification.unclassified-sensitive-sink`.
pub open spec fn rule_classification_unclassified_sensitive_sink() -> RuleRow {
    RuleRow {
        id: "classification.unclassified-sensitive-sink"@,
        code: "LEK-CLS-012"@,
        category: Category::Security,
        severity: Severity::Error,
        statuses: seq![Status::Invalid, Status::Denied],
        message: "An unclassified subject reaches a sensitive sink."@,
        location: LocationRequirement::Unlocated,
        fields: seq![("detail"@, DataFieldType::Token), ("subject"@, DataFieldType::Token)],
        fixes: Seq::empty(),
        lifecycle: Lifecycle::Active,
    }
}

fn entry_classification_unclassified_sensitive_sink() -> (r: RegistryEntry)
    ensures
        r@ == rule_classification_unclassified_sensitive_sink(),
{
    let mut statuses: Vec<Status> = Vec::new();
    statuses.push(Status::Invalid);
    statuses.push(Status::Denied);
    let mut fields: Vec<(String, DataFieldType)> = Vec::new();
    fields.push(("detail".to_owned(), DataFieldType::Token));
    fields.push(("subject".to_owned(), DataFieldType::Token));
    let r = RegistryEntry {
        id: "classification.unclassified-sensitive-sink".to_owned(),
        code: "LEK-CLS-012".to_owned(),
        category: Category::Security,
        default_severity: Severity::Error,
        allowed_statuses: statuses,
        default_message: "An unclassified subject reaches a sensitive sink.".to_owned(),
        location_requirement: LocationRequirement::Unlocated,
        data_fields: fields,
        allowed_fix_ids: Vec::new(),
        lifecycle: Lifecycle::Active,
    };
    assert(r@.statuses =~= rule_classification_unclassified_sensitive_sink().statuses);
    assert(r@.fields =~= rule_classification_unclassified_sensitive_sink().fields);
    assert(r@.fixes =~= rule_classification_unclassified_sensitive_sink().fixes);
    r
}

/// The registered row of `classification.unknown-kind`.
pub open spec fn rule_classification_unknown_kind() -> RuleRow {
    RuleRow {
        id: "classification.unknown-kind"@,
        code: "LEK-CLS-001"@,
        category: Category::Security,
        severity: Severity::Error,
        statuses: seq![Status::Invalid],
        message: "The classification document is invalid."@,
        location: LocationRequirement::Unlocated,
        fields: seq![("detail"@, DataFieldType::Token), ("subject"@, DataFieldType::Token)],
        fixes: Seq::empty(),
        lifecycle: Lifecycle::Active,
    }
}

fn entry_classification_unknown_kind() -> (r: RegistryEntry)
    ensures
        r@ == rule_classification_unknown_kind(),
{
    let mut statuses: Vec<Status> = Vec::new();
    statuses.push(Status::Invalid);
    let mut fields: Vec<(String, DataFieldType)> = Vec::new();
    fields.push(("detail".to_owned(), DataFieldType::Token));
    fields.push(("subject".to_owned(), DataFieldType::Token));
    let r = RegistryEntry {
        id: "classification.unknown-kind".to_owned(),
        code: "LEK-CLS-001".to_owned(),
        category: Category::Security,
        default_severity: Severity::Error,
        allowed_statuses: statuses,
        default_message: "The classification document is invalid.".to_owned(),
        location_requirement: LocationRequirement::Unlocated,
        data_fields: fields,
        allowed_fix_ids: Vec::new(),
        lifecycle: Lifecycle::Active,
    };
    assert(r@.statuses =~= rule_classification_unknown_kind().statuses);
    assert(r@.fields =~= rule_classification_unknown_kind().fields);
    assert(r@.fixes =~= rule_classification_unknown_kind().fixes);
    r
}

/// The registered row of `classification.unknown-subject`.
pub open spec fn rule_classification_unknown_subject() -> RuleRow {
    RuleRow {
        id: "classification.unknown-subject"@,
        code: "LEK-CLS-002"@,
        category: Category::Security,
        severity: Severity::Error,
        statuses: seq![Status::Invalid],
        message: "A classification subject does not resolve in the bound IR."@,
        location: LocationRequirement::Unlocated,
        fields: seq![("detail"@, DataFieldType::Token), ("subject"@, DataFieldType::Token)],
        fixes: Seq::empty(),
        lifecycle: Lifecycle::Active,
    }
}

fn entry_classification_unknown_subject() -> (r: RegistryEntry)
    ensures
        r@ == rule_classification_unknown_subject(),
{
    let mut statuses: Vec<Status> = Vec::new();
    statuses.push(Status::Invalid);
    let mut fields: Vec<(String, DataFieldType)> = Vec::new();
    fields.push(("detail".to_owned(), DataFieldType::Token));
    fields.push(("subject".to_owned(), DataFieldType::Token));
    let r = RegistryEntry {
        id: "classification.unknown-subject".to_owned(),
        code: "LEK-CLS-002".to_owned(),
        category: Category::Security,
        default_severity: Severity::Error,
        allowed_statuses: statuses,
        default_message: "A classification subject does not resolve in the bound IR.".to_owned(),
        location_requirement: LocationRequirement::Unlocated,
        data_fields: fields,
        allowed_fix_ids: Vec::new(),
        lifecycle: Lifecycle::Active,
    };
    assert(r@.statuses =~= rule_classification_unknown_subject().statuses);
    assert(r@.fields =~= rule_classification_unknown_subject().fields);
    assert(r@.fixes =~= rule_classification_unknown_subject().fixes);
    r
}

/// The registered row of `cli.usage`.
pub open spec fn rule_cli_usage() -> RuleRow {
    RuleRow {
        id: "cli.usage"@,
        code: "LEK-CLI-001"@,
        category: Category::Infrastructure,
        severity: Severity::Error,
        statuses: seq![Status::Invalid],
        message: "Malformed command-line syntax."@,
        location: LocationRequirement::Unlocated,
        fields: seq![],
        fixes: Seq::empty(),
        lifecycle: Lifecycle::Active,
    }
}

fn entry_cli_usage() -> (r: RegistryEntry)
    ensures
        r@ == rule_cli_usage(),
{
    let mut statuses: Vec<Status> = Vec::new();
    statuses.push(Status::Invalid);
    let mut fields: Vec<(String, DataFieldType)> = Vec::new();
    let r = RegistryEntry {
        id: "cli.usage".to_owned(),
        code: "LEK-CLI-001".to_owned(),
        category: Category::Infrastructure,
        default_severity: Severity::Error,
        allowed_statuses: statuses,
        default_message: "Malformed command-line syntax.".to_owned(),
        location_requirement: LocationRequirement::Unlocated,
        data_fields: fields,
        allowed_fix_ids: Vec::new(),
        lifecycle: Lifecycle::Active,
    };
    assert(r@.statuses =~= rule_cli_usage().statuses);
    assert(r@.fields =~= rule_cli_usage().fields);
    assert(r@.fixes =~= rule_cli_usage().fixes);
    r
}

/// The registered row of `contracted.binding-drift`.
pub open spec fn rule_contracted_binding_drift() -> RuleRow {
    RuleRow {
        id: "contracted.binding-drift"@,
        code: "LEK-CTR-006"@,
        category: Category::Model,
        severity: Severity::Error,
        statuses: seq![Status::Invalid],
        message: "A conformed binding drifted from its declaration."@,
        location: LocationRequirement::Unlocated,
        fields: seq![("detail"@, DataFieldType::Token)],
        fixes: Seq::empty(),
        lifecycle: Lifecycle::Active,
    }
}

fn entry_contracted_binding_drift() -> (r: RegistryEntry)
    ensures
        r@ == rule_contracted_binding_drift(),
{
    let mut statuses: Vec<Status> = Vec::new();
    statuses.push(Status::Invalid);
    let mut fields: Vec<(String, DataFieldType)> = Vec::new();
    fields.push(("detail".to_owned(), DataFieldType::Token));
    let r = RegistryEntry {
        id: "contracted.binding-drift".to_owned(),
        code: "LEK-CTR-006".to_owned(),
        category: Category::Model,
        default_severity: Severity::Error,
        allowed_statuses: statuses,
        default_message: "A conformed binding drifted from its declaration.".to_owned(),
        location_requirement: LocationRequirement::Unlocated,
        data_fields: fields,
        allowed_fix_ids: Vec::new(),
        lifecycle: Lifecycle::Active,
    };
    assert(r@.statuses =~= rule_contracted_binding_drift().statuses);
    assert(r@.fields =~= rule_contracted_binding_drift().fields);
    assert(r@.fixes =~= rule_contracted_binding_drift().fixes);
    r
}

/// The registered row of `contracted.coverage-missing`.
pub open spec fn rule_contracted_coverage_missing() -> RuleRow {
    RuleRow {
        id: "contracted.coverage-missing"@,
        code: "LEK-CTR-008"@,
        category: Category::Model,
        severity: Severity::Error,
        statuses: seq![Status::Invalid],
        message: "A conformed symbol has no native test."@,
        location: LocationRequirement::Unlocated,
        fields: seq![("detail"@, DataFieldType::Token)],
        fixes: Seq::empty(),
        lifecycle: Lifecycle::Active,
    }
}

fn entry_contracted_coverage_missing() -> (r: RegistryEntry)
    ensures
        r@ == rule_contracted_coverage_missing(),
{
    let mut statuses: Vec<Status> = Vec::new();
    statuses.push(Status::Invalid);
    let mut fields: Vec<(String, DataFieldType)> = Vec::new();
    fields.push(("detail".to_owned(), DataFieldType::Token));
    let r = RegistryEntry {
        id: "contracted.coverage-missing".to_owned(),
        code: "LEK-CTR-008".to_owned(),
        category: Category::Model,
        default_severity: Severity::Error,
        allowed_statuses: statuses,
        default_message: "A conformed symbol has no native test.".to_owned(),
        location_requirement: LocationRequirement::Unlocated,
        data_fields: fields,
        allowed_fix_ids: Vec::new(),
        lifecycle: Lifecycle::Active,
    };
    assert(r@.statuses =~= rule_contracted_coverage_missing().statuses);
    assert(r@.fields =~= rule_contracted_coverage_missing().fields);
    assert(r@.fixes =~= rule_contracted_coverage_missing().fixes);
    r
}

/// The registered row of `contracted.declaration-invalid`.
pub open spec fn rule_contracted_declaration_invalid() -> RuleRow {
    RuleRow {
        id: "contracted.declaration-invalid"@,
        code: "LEK-CTR-001"@,
        category: Category::Model,
        severity: Severity::Error,
        statuses: seq![Status::Invalid],
        message: "The contracted declaration document is invalid."@,
        location: LocationRequirement::Unlocated,
        fields: seq![("detail"@, DataFieldType::Token), ("target"@, DataFieldType::Token)],
        fixes: Seq::empty(),
        lifecycle: Lifecycle::Active,
    }
}

fn entry_contracted_declaration_invalid() -> (r: RegistryEntry)
    ensures
        r@ == rule_contracted_declaration_invalid(),
{
    let mut statuses: Vec<Status> = Vec::new();
    statuses.push(Status::Invalid);
    let mut fields: Vec<(String, DataFieldType)> = Vec::new();
    fields.push(("detail".to_owned(), DataFieldType::Token));
    fields.push(("target".to_owned(), DataFieldType::Token));
    let r = RegistryEntry {
        id: "contracted.declaration-invalid".to_owned(),
        code: "LEK-CTR-001".to_owned(),
        category: Category::Model,
        default_severity: Severity::Error,
        allowed_statuses: statuses,
        default_message: "The contracted declaration document is invalid.".to_owned(),
        location_requirement: LocationRequirement::Unlocated,
        data_fields: fields,
        allowed_fix_ids: Vec::new(),
        lifecycle: Lifecycle::Active,
    };
    assert(r@.statuses =~= rule_contracted_declaration_invalid().statuses);
    assert(r@.fields =~= rule_contracted_declaration_invalid().fields);
    assert(r@.fixes =~= rule_contracted_declaration_invalid().fixes);
    r
}

/// The registered row of `contracted.declaration-limit`.
pub open spec fn rule_contracted_declaration_limit() -> RuleRow {
    RuleRow {
        id: "contracted.declaration-limit"@,
        code: "LEK-CTR-002"@,
        category: Category::Model,
        severity: Severity::Error,
        statuses: seq![Status::Invalid],
        message: "The contracted declaration exceeds a bound."@,
        location: LocationRequirement::Unlocated,
        fields: seq![("found"@, DataFieldType::Count), ("limit"@, DataFieldType::Token)],
        fixes: Seq::empty(),
        lifecycle: Lifecycle::Active,
    }
}

fn entry_contracted_declaration_limit() -> (r: RegistryEntry)
    ensures
        r@ == rule_contracted_declaration_limit(),
{
    let mut statuses: Vec<Status> = Vec::new();
    statuses.push(Status::Invalid);
    let mut fields: Vec<(String, DataFieldType)> = Vec::new();
    fields.push(("found".to_owned(), DataFieldType::Count));
    fields.push(("limit".to_owned(), DataFieldType::Token));
    let r = RegistryEntry {
        id: "contracted.declaration-limit".to_owned(),
        code: "LEK-CTR-002".to_owned(),
        category: Category::Model,
        default_severity: Severity::Error,
        allowed_statuses: statuses,
        default_message: "The contracted declaration exceeds a bound.".to_owned(),
        location_requirement: LocationRequirement::Unlocated,
        data_fields: fields,
        allowed_fix_ids: Vec::new(),
        lifecycle: Lifecycle::Active,
    };
    assert(r@.statuses =~= rule_contracted_declaration_limit().statuses);
    assert(r@.fields =~= rule_contracted_declaration_limit().fields);
    assert(r@.fixes =~= rule_contracted_declaration_limit().fixes);
    r
}

/// The registered row of `contracted.registry-io`.
pub open spec fn rule_contracted_registry_io() -> RuleRow {
    RuleRow {
        id: "contracted.registry-io"@,
        code: "LEK-CTR-005"@,
        category: Category::Model,
        severity: Severity::Error,
        statuses: seq![Status::Invalid],
        message: "The contracted registry could not be read or written."@,
        location: LocationRequirement::Unlocated,
        fields: seq![("detail"@, DataFieldType::Token)],
        fixes: Seq::empty(),
        lifecycle: Lifecycle::Active,
    }
}

fn entry_contracted_registry_io() -> (r: RegistryEntry)
    ensures
        r@ == rule_contracted_registry_io(),
{
    let mut statuses: Vec<Status> = Vec::new();
    statuses.push(Status::Invalid);
    let mut fields: Vec<(String, DataFieldType)> = Vec::new();
    fields.push(("detail".to_owned(), DataFieldType::Token));
    let r = RegistryEntry {
        id: "contracted.registry-io".to_owned(),
        code: "LEK-CTR-005".to_owned(),
        category: Category::Model,
        default_severity: Severity::Error,
        allowed_statuses: statuses,
        default_message: "The contracted registry could not be read or written.".to_owned(),
        location_requirement: LocationRequirement::Unlocated,
        data_fields: fields,
        allowed_fix_ids: Vec::new(),
        lifecycle: Lifecycle::Active,
    };
    assert(r@.statuses =~= rule_contracted_registry_io().statuses);
    assert(r@.fields =~= rule_contracted_registry_io().fields);
    assert(r@.fixes =~= rule_contracted_registry_io().fixes);
    r
}

/// The registered row of `contracted.stale-artifact`.
pub open spec fn rule_contracted_stale_artifact() -> RuleRow {
    RuleRow {
        id: "contracted.stale-artifact"@,
        code: "LEK-CTR-007"@,
        category: Category::Model,
        severity: Severity::Error,
        statuses: seq![Status::Invalid],
        message: "A support artifact is stale."@,
        location: LocationRequirement::Unlocated,
        fields: seq![("detail"@, DataFieldType::Token)],
        fixes: Seq::empty(),
        lifecycle: Lifecycle::Active,
    }
}

fn entry_contracted_stale_artifact() -> (r: RegistryEntry)
    ensures
        r@ == rule_contracted_stale_artifact(),
{
    let mut statuses: Vec<Status> = Vec::new();
    statuses.push(Status::Invalid);
    let mut fields: Vec<(String, DataFieldType)> = Vec::new();
    fields.push(("detail".to_owned(), DataFieldType::Token));
    let r = RegistryEntry {
        id: "contracted.stale-artifact".to_owned(),
        code: "LEK-CTR-007".to_owned(),
        category: Category::Model,
        default_severity: Severity::Error,
        allowed_statuses: statuses,
        default_message: "A support artifact is stale.".to_owned(),
        location_requirement: LocationRequirement::Unlocated,
        data_fields: fields,
        allowed_fix_ids: Vec::new(),
        lifecycle: Lifecycle::Active,
    };
    assert(r@.statuses =~= rule_contracted_stale_artifact().statuses);
    assert(r@.fields =~= rule_contracted_stale_artifact().fields);
    assert(r@.fixes =~= rule_contracted_stale_artifact().fixes);
    r
}

/// The registered row of `contracted.unknown-module`.
pub open spec fn rule_contracted_unknown_module() -> RuleRow {
    RuleRow {
        id: "contracted.unknown-module"@,
        code: "LEK-CTR-003"@,
        category: Category::Model,
        severity: Severity::Error,
        statuses: seq![Status::Invalid],
        message: "A declaration names an unknown module."@,
        location: LocationRequirement::Unlocated,
        fields: seq![("module"@, DataFieldType::Token)],
        fixes: Seq::empty(),
        lifecycle: Lifecycle::Active,
    }
}

fn entry_contracted_unknown_module() -> (r: RegistryEntry)
    ensures
        r@ == rule_contracted_unknown_module(),
{
    let mut statuses: Vec<Status> = Vec::new();
    statuses.push(Status::Invalid);
    let mut fields: Vec<(String, DataFieldType)> = Vec::new();
    fields.push(("module".to_owned(), DataFieldType::Token));
    let r = RegistryEntry {
        id: "contracted.unknown-module".to_owned(),
        code: "LEK-CTR-003".to_owned(),
        category: Category::Model,
        default_severity: Severity::Error,
        allowed_statuses: statuses,
        default_message: "A declaration names an unknown module.".to_owned(),
        location_requirement: LocationRequirement::Unlocated,
        data_fields: fields,
        allowed_fix_ids: Vec::new(),
        lifecycle: Lifecycle::Active,
    };
    assert(r@.statuses =~= rule_contracted_unknown_module().statuses);
    assert(r@.fields =~= rule_contracted_unknown_module().fields);
    assert(r@.fixes =~= rule_contracted_unknown_module().fixes);
    r
}

/// The registered row of `contracted.unknown-symbol`.
pub open spec fn rule_contracted_unknown_symbol() -> RuleRow {
    RuleRow {
        id: "contracted.unknown-symbol"@,
        code: "LEK-CTR-004"@,
        category: Category::Model,
        severity: Severity::Error,
        statuses: seq![Status::Invalid],
        message: "A declaration names an unknown symbol."@,
        location: LocationRequirement::Unlocated,
        fields: seq![("symbol"@, DataFieldType::Token)],
        fixes: Seq::empty(),
        lifecycle: Lifecycle::Active,
    }
}

fn entry_contracted_unknown_symbol() -> (r: RegistryEntry)
    ensures
        r@ == rule_contracted_unknown_symbol(),
{
    let mut statuses: Vec<Status> = Vec::new();
    statuses.push(Status::Invalid);
    let mut fields: Vec<(String, DataFieldType)> = Vec::new();
    fields.push(("symbol".to_owned(), DataFieldType::Token));
    let r = RegistryEntry {
        id: "contracted.unknown-symbol".to_owned(),
        code: "LEK-CTR-004".to_owned(),
        category: Category::Model,
        default_severity: Severity::Error,
        allowed_statuses: statuses,
        default_message: "A declaration names an unknown symbol.".to_owned(),
        location_requirement: LocationRequirement::Unlocated,
        data_fields: fields,
        allowed_fix_ids: Vec::new(),
        lifecycle: Lifecycle::Active,
    };
    assert(r@.statuses =~= rule_contracted_unknown_symbol().statuses);
    assert(r@.fields =~= rule_contracted_unknown_symbol().fields);
    assert(r@.fixes =~= rule_contracted_unknown_symbol().fixes);
    r
}

/// The registered row of `dataflow.destination-forbidden`.
pub open spec fn rule_dataflow_destination_forbidden() -> RuleRow {
    RuleRow {
        id: "dataflow.destination-forbidden"@,
        code: "LEK-DFL-006"@,
        category: Category::Security,
        severity: Severity::Error,
        statuses: seq![Status::Invalid, Status::Denied],
        message: "A gated sink consumes a destination the kind never declares."@,
        location: LocationRequirement::Unlocated,
        fields: seq![("detail"@, DataFieldType::Token)],
        fixes: Seq::empty(),
        lifecycle: Lifecycle::Active,
    }
}

fn entry_dataflow_destination_forbidden() -> (r: RegistryEntry)
    ensures
        r@ == rule_dataflow_destination_forbidden(),
{
    let mut statuses: Vec<Status> = Vec::new();
    statuses.push(Status::Invalid);
    statuses.push(Status::Denied);
    let mut fields: Vec<(String, DataFieldType)> = Vec::new();
    fields.push(("detail".to_owned(), DataFieldType::Token));
    let r = RegistryEntry {
        id: "dataflow.destination-forbidden".to_owned(),
        code: "LEK-DFL-006".to_owned(),
        category: Category::Security,
        default_severity: Severity::Error,
        allowed_statuses: statuses,
        default_message: "A gated sink consumes a destination the kind never declares.".to_owned(),
        location_requirement: LocationRequirement::Unlocated,
        data_fields: fields,
        allowed_fix_ids: Vec::new(),
        lifecycle: Lifecycle::Active,
    };
    assert(r@.statuses =~= rule_dataflow_destination_forbidden().statuses);
    assert(r@.fields =~= rule_dataflow_destination_forbidden().fields);
    assert(r@.fixes =~= rule_dataflow_destination_forbidden().fixes);
    r
}

/// The registered row of `dataflow.exposed-private-field`.
pub open spec fn rule_dataflow_exposed_private_field() -> RuleRow {
    RuleRow {
        id: "dataflow.exposed-private-field"@,
        code: "LEK-DFL-008"@,
        category: Category::Security,
        severity: Severity::Error,
        statuses: seq![Status::Invalid, Status::Denied],
        message: "A public endpoint exposes a field above public."@,
        location: LocationRequirement::Unlocated,
        fields: seq![("detail"@, DataFieldType::Token)],
        fixes: Seq::empty(),
        lifecycle: Lifecycle::Active,
    }
}

fn entry_dataflow_exposed_private_field() -> (r: RegistryEntry)
    ensures
        r@ == rule_dataflow_exposed_private_field(),
{
    let mut statuses: Vec<Status> = Vec::new();
    statuses.push(Status::Invalid);
    statuses.push(Status::Denied);
    let mut fields: Vec<(String, DataFieldType)> = Vec::new();
    fields.push(("detail".to_owned(), DataFieldType::Token));
    let r = RegistryEntry {
        id: "dataflow.exposed-private-field".to_owned(),
        code: "LEK-DFL-008".to_owned(),
        category: Category::Security,
        default_severity: Severity::Error,
        allowed_statuses: statuses,
        default_message: "A public endpoint exposes a field above public.".to_owned(),
        location_requirement: LocationRequirement::Unlocated,
        data_fields: fields,
        allowed_fix_ids: Vec::new(),
        lifecycle: Lifecycle::Active,
    };
    assert(r@.statuses =~= rule_dataflow_exposed_private_field().statuses);
    assert(r@.fields =~= rule_dataflow_exposed_private_field().fields);
    assert(r@.fixes =~= rule_dataflow_exposed_private_field().fixes);
    r
}

/// The registered row of `dataflow.low-confidence-sensitive`.
pub open spec fn rule_dataflow_low_confidence_sensitive() -> RuleRow {
    RuleRow {
        id: "dataflow.low-confidence-sensitive"@,
        code: "LEK-DFL-002"@,
        category: Category::Security,
        severity: Severity::Error,
        statuses: seq![Status::Invalid, Status::Denied],
        message: "A sensitive flow rests on evidence below high confidence."@,
        location: LocationRequirement::Unlocated,
        fields: seq![("detail"@, DataFieldType::Token)],
        fixes: Seq::empty(),
        lifecycle: Lifecycle::Active,
    }
}

fn entry_dataflow_low_confidence_sensitive() -> (r: RegistryEntry)
    ensures
        r@ == rule_dataflow_low_confidence_sensitive(),
{
    let mut statuses: Vec<Status> = Vec::new();
    statuses.push(Status::Invalid);
    statuses.push(Status::Denied);
    let mut fields: Vec<(String, DataFieldType)> = Vec::new();
    fields.push(("detail".to_owned(), DataFieldType::Token));
    let r = RegistryEntry {
        id: "dataflow.low-confidence-sensitive".to_owned(),
        code: "LEK-DFL-002".to_owned(),
        category: Category::Security,
        default_severity: Severity::Error,
        allowed_statuses: statuses,
        default_message: "A sensitive flow rests on evidence below high confidence.".to_owned(),
        location_requirement: LocationRequirement::Unlocated,
        data_fields: fields,
        allowed_fix_ids: Vec::new(),
        lifecycle: Lifecycle::Active,
    };
    assert(r@.statuses =~= rule_dataflow_low_confidence_sensitive().statuses);
    assert(r@.fields =~= rule_dataflow_low_confidence_sensitive().fields);
    assert(r@.fixes =~= rule_dataflow_low_confidence_sensitive().fixes);
    r
}

/// The registered row of `dataflow.missing-approval`.
pub open spec fn rule_dataflow_missing_approval() -> RuleRow {
    RuleRow {
        id: "dataflow.missing-approval"@,
        code: "LEK-DFL-005"@,
        category: Category::Security,
        severity: Severity::Error,
        statuses: seq![Status::Invalid, Status::Denied],
        message: "A consent-bearing flow has no approval record."@,
        location: LocationRequirement::Unlocated,
        fields: seq![("detail"@, DataFieldType::Token)],
        fixes: Seq::empty(),
        lifecycle: Lifecycle::Active,
    }
}

fn entry_dataflow_missing_approval() -> (r: RegistryEntry)
    ensures
        r@ == rule_dataflow_missing_approval(),
{
    let mut statuses: Vec<Status> = Vec::new();
    statuses.push(Status::Invalid);
    statuses.push(Status::Denied);
    let mut fields: Vec<(String, DataFieldType)> = Vec::new();
    fields.push(("detail".to_owned(), DataFieldType::Token));
    let r = RegistryEntry {
        id: "dataflow.missing-approval".to_owned(),
        code: "LEK-DFL-005".to_owned(),
        category: Category::Security,
        default_severity: Severity::Error,
        allowed_statuses: statuses,
        default_message: "A consent-bearing flow has no approval record.".to_owned(),
        location_requirement: LocationRequirement::Unlocated,
        data_fields: fields,
        allowed_fix_ids: Vec::new(),
        lifecycle: Lifecycle::Active,
    };
    assert(r@.statuses =~= rule_dataflow_missing_approval().statuses);
    assert(r@.fields =~= rule_dataflow_missing_approval().fields);
    assert(r@.fixes =~= rule_dataflow_missing_approval().fixes);
    r
}

/// The registered row of `dataflow.missing-destination`.
pub open spec fn rule_dataflow_missing_destination() -> RuleRow {
    RuleRow {
        id: "dataflow.missing-destination"@,
        code: "LEK-DFL-004"@,
        category: Category::Security,
        severity: Severity::Error,
        statuses: seq![Status::Invalid, Status::Denied],
        message: "A gated sink has no declared destination."@,
        location: LocationRequirement::Unlocated,
        fields: seq![("detail"@, DataFieldType::Token)],
        fixes: Seq::empty(),
        lifecycle: Lifecycle::Active,
    }
}

fn entry_dataflow_missing_destination() -> (r: RegistryEntry)
    ensures
        r@ == rule_dataflow_missing_destination(),
{
    let mut statuses: Vec<Status> = Vec::new();
    statuses.push(Status::Invalid);
    statuses.push(Status::Denied);
    let mut fields: Vec<(String, DataFieldType)> = Vec::new();
    fields.push(("detail".to_owned(), DataFieldType::Token));
    let r = RegistryEntry {
        id: "dataflow.missing-destination".to_owned(),
        code: "LEK-DFL-004".to_owned(),
        category: Category::Security,
        default_severity: Severity::Error,
        allowed_statuses: statuses,
        default_message: "A gated sink has no declared destination.".to_owned(),
        location_requirement: LocationRequirement::Unlocated,
        data_fields: fields,
        allowed_fix_ids: Vec::new(),
        lifecycle: Lifecycle::Active,
    };
    assert(r@.statuses =~= rule_dataflow_missing_destination().statuses);
    assert(r@.fields =~= rule_dataflow_missing_destination().fields);
    assert(r@.fixes =~= rule_dataflow_missing_destination().fixes);
    r
}

/// The registered row of `dataflow.observed-incomplete`.
pub open spec fn rule_dataflow_observed_incomplete() -> RuleRow {
    RuleRow {
        id: "dataflow.observed-incomplete"@,
        code: "LEK-DFL-007"@,
        category: Category::Security,
        severity: Severity::Error,
        statuses: seq![Status::Invalid, Status::Denied],
        message: "The observed graph is incomplete."@,
        location: LocationRequirement::Unlocated,
        fields: seq![("detail"@, DataFieldType::Token)],
        fixes: Seq::empty(),
        lifecycle: Lifecycle::Active,
    }
}

fn entry_dataflow_observed_incomplete() -> (r: RegistryEntry)
    ensures
        r@ == rule_dataflow_observed_incomplete(),
{
    let mut statuses: Vec<Status> = Vec::new();
    statuses.push(Status::Invalid);
    statuses.push(Status::Denied);
    let mut fields: Vec<(String, DataFieldType)> = Vec::new();
    fields.push(("detail".to_owned(), DataFieldType::Token));
    let r = RegistryEntry {
        id: "dataflow.observed-incomplete".to_owned(),
        code: "LEK-DFL-007".to_owned(),
        category: Category::Security,
        default_severity: Severity::Error,
        allowed_statuses: statuses,
        default_message: "The observed graph is incomplete.".to_owned(),
        location_requirement: LocationRequirement::Unlocated,
        data_fields: fields,
        allowed_fix_ids: Vec::new(),
        lifecycle: Lifecycle::Active,
    };
    assert(r@.statuses =~= rule_dataflow_observed_incomplete().statuses);
    assert(r@.fields =~= rule_dataflow_observed_incomplete().fields);
    assert(r@.fixes =~= rule_dataflow_observed_incomplete().fixes);
    r
}

/// The registered row of `dataflow.tenant-crossing`.
pub open spec fn rule_dataflow_tenant_crossing() -> RuleRow {
    RuleRow {
        id: "dataflow.tenant-crossing"@,
        code: "LEK-DFL-003"@,
        category: Category::Security,
        severity: Severity::Error,
        statuses: seq![Status::Invalid, Status::Denied],
        message: "A flow crosses tenants or its tenant relation is unknown."@,
        location: LocationRequirement::Unlocated,
        fields: seq![("detail"@, DataFieldType::Token)],
        fixes: Seq::empty(),
        lifecycle: Lifecycle::Active,
    }
}

fn entry_dataflow_tenant_crossing() -> (r: RegistryEntry)
    ensures
        r@ == rule_dataflow_tenant_crossing(),
{
    let mut statuses: Vec<Status> = Vec::new();
    statuses.push(Status::Invalid);
    statuses.push(Status::Denied);
    let mut fields: Vec<(String, DataFieldType)> = Vec::new();
    fields.push(("detail".to_owned(), DataFieldType::Token));
    let r = RegistryEntry {
        id: "dataflow.tenant-crossing".to_owned(),
        code: "LEK-DFL-003".to_owned(),
        category: Category::Security,
        default_severity: Severity::Error,
        allowed_statuses: statuses,
        default_message: "A flow crosses tenants or its tenant relation is unknown.".to_owned(),
        location_requirement: LocationRequirement::Unlocated,
        data_fields: fields,
        allowed_fix_ids: Vec::new(),
        lifecycle: Lifecycle::Active,
    };
    assert(r@.statuses =~= rule_dataflow_tenant_crossing().statuses);
    assert(r@.fields =~= rule_dataflow_tenant_crossing().fields);
    assert(r@.fixes =~= rule_dataflow_tenant_crossing().fixes);
    r
}

/// The registered row of `dataflow.unknown-flow`.
pub open spec fn rule_dataflow_unknown_flow() -> RuleRow {
    RuleRow {
        id: "dataflow.unknown-flow"@,
        code: "LEK-DFL-001"@,
        category: Category::Security,
        severity: Severity::Error,
        statuses: seq![Status::Invalid, Status::Denied],
        message: "A flow does not resolve; unknown is never safe."@,
        location: LocationRequirement::Unlocated,
        fields: seq![("detail"@, DataFieldType::Token)],
        fixes: Seq::empty(),
        lifecycle: Lifecycle::Active,
    }
}

fn entry_dataflow_unknown_flow() -> (r: RegistryEntry)
    ensures
        r@ == rule_dataflow_unknown_flow(),
{
    let mut statuses: Vec<Status> = Vec::new();
    statuses.push(Status::Invalid);
    statuses.push(Status::Denied);
    let mut fields: Vec<(String, DataFieldType)> = Vec::new();
    fields.push(("detail".to_owned(), DataFieldType::Token));
    let r = RegistryEntry {
        id: "dataflow.unknown-flow".to_owned(),
        code: "LEK-DFL-001".to_owned(),
        category: Category::Security,
        default_severity: Severity::Error,
        allowed_statuses: statuses,
        default_message: "A flow does not resolve; unknown is never safe.".to_owned(),
        location_requirement: LocationRequirement::Unlocated,
        data_fields: fields,
        allowed_fix_ids: Vec::new(),
        lifecycle: Lifecycle::Active,
    };
    assert(r@.statuses =~= rule_dataflow_unknown_flow().statuses);
    assert(r@.fields =~= rule_dataflow_unknown_flow().fields);
    assert(r@.fixes =~= rule_dataflow_unknown_flow().fixes);
    r
}

/// The registered row of `diagnostics.registry-invalid`.
pub open spec fn rule_diagnostics_registry_invalid() -> RuleRow {
    RuleRow {
        id: "diagnostics.registry-invalid"@,
        code: "LEK-DIAG-001"@,
        category: Category::Infrastructure,
        severity: Severity::Error,
        statuses: seq![Status::Invalid, Status::Unavailable],
        message: "The embedded diagnostic registry is invalid."@,
        location: LocationRequirement::Unlocated,
        fields: seq![],
        fixes: Seq::empty(),
        lifecycle: Lifecycle::Active,
    }
}

fn entry_diagnostics_registry_invalid() -> (r: RegistryEntry)
    ensures
        r@ == rule_diagnostics_registry_invalid(),
{
    let mut statuses: Vec<Status> = Vec::new();
    statuses.push(Status::Invalid);
    statuses.push(Status::Unavailable);
    let mut fields: Vec<(String, DataFieldType)> = Vec::new();
    let r = RegistryEntry {
        id: "diagnostics.registry-invalid".to_owned(),
        code: "LEK-DIAG-001".to_owned(),
        category: Category::Infrastructure,
        default_severity: Severity::Error,
        allowed_statuses: statuses,
        default_message: "The embedded diagnostic registry is invalid.".to_owned(),
        location_requirement: LocationRequirement::Unlocated,
        data_fields: fields,
        allowed_fix_ids: Vec::new(),
        lifecycle: Lifecycle::Active,
    };
    assert(r@.statuses =~= rule_diagnostics_registry_invalid().statuses);
    assert(r@.fields =~= rule_diagnostics_registry_invalid().fields);
    assert(r@.fixes =~= rule_diagnostics_registry_invalid().fixes);
    r
}

/// The registered row of `graph.input-invalid`.
pub open spec fn rule_graph_input_invalid() -> RuleRow {
    RuleRow {
        id: "graph.input-invalid"@,
        code: "LEK-GRA-001"@,
        category: Category::Model,
        severity: Severity::Error,
        statuses: seq![Status::Invalid],
        message: "The graph input is invalid."@,
        location: LocationRequirement::Unlocated,
        fields: seq![("detail"@, DataFieldType::Token), ("role"@, DataFieldType::Token), ("target"@, DataFieldType::Token)],
        fixes: Seq::empty(),
        lifecycle: Lifecycle::Active,
    }
}

fn entry_graph_input_invalid() -> (r: RegistryEntry)
    ensures
        r@ == rule_graph_input_invalid(),
{
    let mut statuses: Vec<Status> = Vec::new();
    statuses.push(Status::Invalid);
    let mut fields: Vec<(String, DataFieldType)> = Vec::new();
    fields.push(("detail".to_owned(), DataFieldType::Token));
    fields.push(("role".to_owned(), DataFieldType::Token));
    fields.push(("target".to_owned(), DataFieldType::Token));
    let r = RegistryEntry {
        id: "graph.input-invalid".to_owned(),
        code: "LEK-GRA-001".to_owned(),
        category: Category::Model,
        default_severity: Severity::Error,
        allowed_statuses: statuses,
        default_message: "The graph input is invalid.".to_owned(),
        location_requirement: LocationRequirement::Unlocated,
        data_fields: fields,
        allowed_fix_ids: Vec::new(),
        lifecycle: Lifecycle::Active,
    };
    assert(r@.statuses =~= rule_graph_input_invalid().statuses);
    assert(r@.fields =~= rule_graph_input_invalid().fields);
    assert(r@.fixes =~= rule_graph_input_invalid().fixes);
    r
}

/// The registered row of `graph.unknown-node`.
pub open spec fn rule_graph_unknown_node() -> RuleRow {
    RuleRow {
        id: "graph.unknown-node"@,
        code: "LEK-GRA-003"@,
        category: Category::Model,
        severity: Severity::Error,
        statuses: seq![Status::Invalid],
        message: "A requested node is not in the graph."@,
        location: LocationRequirement::Unlocated,
        fields: seq![("detail"@, DataFieldType::Token), ("role"@, DataFieldType::Token), ("target"@, DataFieldType::Token)],
        fixes: Seq::empty(),
        lifecycle: Lifecycle::Active,
    }
}

fn entry_graph_unknown_node() -> (r: RegistryEntry)
    ensures
        r@ == rule_graph_unknown_node(),
{
    let mut statuses: Vec<Status> = Vec::new();
    statuses.push(Status::Invalid);
    let mut fields: Vec<(String, DataFieldType)> = Vec::new();
    fields.push(("detail".to_owned(), DataFieldType::Token));
    fields.push(("role".to_owned(), DataFieldType::Token));
    fields.push(("target".to_owned(), DataFieldType::Token));
    let r = RegistryEntry {
        id: "graph.unknown-node".to_owned(),
        code: "LEK-GRA-003".to_owned(),
        category: Category::Model,
        default_severity: Severity::Error,
        allowed_statuses: statuses,
        default_message: "A requested node is not in the graph.".to_owned(),
        location_requirement: LocationRequirement::Unlocated,
        data_fields: fields,
        allowed_fix_ids: Vec::new(),
        lifecycle: Lifecycle::Active,
    };
    assert(r@.statuses =~= rule_graph_unknown_node().statuses);
    assert(r@.fields =~= rule_graph_unknown_node().fields);
    assert(r@.fixes =~= rule_graph_unknown_node().fixes);
    r
}

/// The registered row of `loader.import-cycle`.
pub open spec fn rule_loader_import_cycle() -> RuleRow {
    RuleRow {
        id: "loader.import-cycle"@,
        code: "LEK-LOAD-008"@,
        category: Category::Model,
        severity: Severity::Error,
        statuses: seq![Status::Invalid],
        message: "The imports form a cycle."@,
        location: LocationRequirement::Path,
        fields: seq![],
        fixes: Seq::empty(),
        lifecycle: Lifecycle::Active,
    }
}

fn entry_loader_import_cycle() -> (r: RegistryEntry)
    ensures
        r@ == rule_loader_import_cycle(),
{
    let mut statuses: Vec<Status> = Vec::new();
    statuses.push(Status::Invalid);
    let mut fields: Vec<(String, DataFieldType)> = Vec::new();
    let r = RegistryEntry {
        id: "loader.import-cycle".to_owned(),
        code: "LEK-LOAD-008".to_owned(),
        category: Category::Model,
        default_severity: Severity::Error,
        allowed_statuses: statuses,
        default_message: "The imports form a cycle.".to_owned(),
        location_requirement: LocationRequirement::Path,
        data_fields: fields,
        allowed_fix_ids: Vec::new(),
        lifecycle: Lifecycle::Active,
    };
    assert(r@.statuses =~= rule_loader_import_cycle().statuses);
    assert(r@.fields =~= rule_loader_import_cycle().fields);
    assert(r@.fixes =~= rule_loader_import_cycle().fixes);
    r
}

/// The registered row of `loader.import-missing`.
pub open spec fn rule_loader_import_missing() -> RuleRow {
    RuleRow {
        id: "loader.import-missing"@,
        code: "LEK-LOAD-010"@,
        category: Category::Model,
        severity: Severity::Error,
        statuses: seq![Status::Invalid],
        message: "An imported document is missing."@,
        location: LocationRequirement::Path,
        fields: seq![],
        fixes: Seq::empty(),
        lifecycle: Lifecycle::Active,
    }
}

fn entry_loader_import_missing() -> (r: RegistryEntry)
    ensures
        r@ == rule_loader_import_missing(),
{
    let mut statuses: Vec<Status> = Vec::new();
    statuses.push(Status::Invalid);
    let mut fields: Vec<(String, DataFieldType)> = Vec::new();
    let r = RegistryEntry {
        id: "loader.import-missing".to_owned(),
        code: "LEK-LOAD-010".to_owned(),
        category: Category::Model,
        default_severity: Severity::Error,
        allowed_statuses: statuses,
        default_message: "An imported document is missing.".to_owned(),
        location_requirement: LocationRequirement::Path,
        data_fields: fields,
        allowed_fix_ids: Vec::new(),
        lifecycle: Lifecycle::Active,
    };
    assert(r@.statuses =~= rule_loader_import_missing().statuses);
    assert(r@.fields =~= rule_loader_import_missing().fields);
    assert(r@.fixes =~= rule_loader_import_missing().fixes);
    r
}

/// The registered row of `loader.json-parse`.
pub open spec fn rule_loader_json_parse() -> RuleRow {
    RuleRow {
        id: "loader.json-parse"@,
        code: "LEK-LOAD-001"@,
        category: Category::Model,
        severity: Severity::Error,
        statuses: seq![Status::Invalid],
        message: "The document is not well-formed JSON."@,
        location: LocationRequirement::Span,
        fields: seq![],
        fixes: Seq::empty(),
        lifecycle: Lifecycle::Active,
    }
}

fn entry_loader_json_parse() -> (r: RegistryEntry)
    ensures
        r@ == rule_loader_json_parse(),
{
    let mut statuses: Vec<Status> = Vec::new();
    statuses.push(Status::Invalid);
    let mut fields: Vec<(String, DataFieldType)> = Vec::new();
    let r = RegistryEntry {
        id: "loader.json-parse".to_owned(),
        code: "LEK-LOAD-001".to_owned(),
        category: Category::Model,
        default_severity: Severity::Error,
        allowed_statuses: statuses,
        default_message: "The document is not well-formed JSON.".to_owned(),
        location_requirement: LocationRequirement::Span,
        data_fields: fields,
        allowed_fix_ids: Vec::new(),
        lifecycle: Lifecycle::Active,
    };
    assert(r@.statuses =~= rule_loader_json_parse().statuses);
    assert(r@.fields =~= rule_loader_json_parse().fields);
    assert(r@.fixes =~= rule_loader_json_parse().fixes);
    r
}

/// The embedded registry rows, sorted by rule id.
pub open spec fn rule_table() -> Seq<RuleRow> {
    seq![
        rule_adapter_diagnostic_invalid(),
        rule_classification_conflicting_kind(),
        rule_classification_custody_ir(),
        rule_classification_custody_model(),
        rule_classification_custody_project(),
        rule_classification_duplicate_subject(),
        rule_classification_expired_declassification(),
        rule_classification_invalid_declassification(),
        rule_classification_kind_rule_missing(),
        rule_classification_malformed_review_ref(),
        rule_classification_missing_approval(),
        rule_classification_policy_missing(),
        rule_classification_self_approved(),
        rule_classification_sink_ceiling_exceeded(),
        rule_classification_unclassified_sensitive_sink(),
        rule_classification_unknown_kind(),
        rule_classification_unknown_subject(),
        rule_cli_usage(),
        rule_contracted_binding_drift(),
        rule_contracted_coverage_missing(),
        rule_contracted_declaration_invalid(),
        rule_contracted_declaration_limit(),
        rule_contracted_registry_io(),
        rule_contracted_stale_artifact(),
        rule_contracted_unknown_module(),
        rule_contracted_unknown_symbol(),
        rule_dataflow_destination_forbidden(),
        rule_dataflow_exposed_private_field(),
        rule_dataflow_low_confidence_sensitive(),
        rule_dataflow_missing_approval(),
        rule_dataflow_missing_destination(),
        rule_dataflow_observed_incomplete(),
        rule_dataflow_tenant_crossing(),
        rule_dataflow_unknown_flow(),
        rule_diagnostics_registry_invalid(),
        rule_graph_input_invalid(),
        rule_graph_unknown_node(),
        rule_loader_import_cycle(),
        rule_loader_import_missing(),
        rule_loader_json_parse(),
    ]
}

fn embedded_entries() -> (r: Vec<RegistryEntry>)
    ensures
        entries_view(r@) == rule_table(),
{
    let mut entries: Vec<RegistryEntry> = Vec::new();
    entries.push(entry_adapter_diagnostic_invalid());
    entries.push(entry_classification_conflicting_kind());
    entries.push(entry_classification_custody_ir());
    entries.push(entry_classification_custody_model());
    entries.push(entry_classification_custody_project());
    entries.push(entry_classification_duplicate_subject());
    entries.push(entry_classification_expired_declassification());
    entries.push(entry_classification_invalid_declassification());
    entries.push(entry_classification_kind_rule_missing());
    entries.push(entry_classification_malformed_review_ref());
    entries.push(entry_classification_missing_approval());
    entries.push(entry_classification_policy_missing());
    entries.push(entry_classification_self_approved());
    entries.push(entry_classification_sink_ceiling_exceeded());
    entries.push(entry_classification_unclassified_sensitive_sink());
    entries.push(entry_classification_unknown_kind());
    entries.push(entry_classification_unknown_subject());
    entries.push(entry_cli_usage());
    entries.push(entry_contracted_binding_drift());
    entries.push(entry_contracted_coverage_missing());
    entries.push(entry_contracted_declaration_invalid());
    entries.push(entry_contracted_declaration_limit());
    entries.push(entry_contracted_registry_io());
    entries.push(entry_contracted_stale_artifact());
    entries.push(entry_contracted_unknown_module());
    entries.push(entry_contracted_unknown_symbol());
    entries.push(entry_dataflow_destination_forbidden());
    entries.push(entry_dataflow_exposed_private_field());
    entries.push(entry_dataflow_low_confidence_sensitive());
    entries.push(entry_dataflow_missing_approval());
    entries.push(entry_dataflow_missing_destination());
    entries.push(entry_dataflow_observed_incomplete());
    entries.push(entry_dataflow_tenant_crossing());
    entries.push(entry_dataflow_unknown_flow());
    entries.push(entry_diagnostics_registry_invalid());
    entries.push(entry_graph_input_invalid());
    entries.push(entry_graph_unknown_node());
    entries.push(entry_loader_import_cycle());
    entries.push(entry_loader_import_missing());
    entries.push(entry_loader_json_parse());
    assert(entries_view(entries@) =~= rule_table());
    entries
}

/// A row whose rule id and code satisfy their grammars.
pub open spec fn row_valid(r: RuleRow) -> bool {
    is_rule_id(r.id) && is_diagnostic_code(r.code)
}

/// The row found for an id carries that id, and is valid when every
/// row is.
pub proof fn lemma_find_rule(rows: Seq<RuleRow>, id: Seq<char>)
    requires
        forall|i: int| 0 <= i < rows.len() ==> row_valid(#[trigger] rows[i]),
    ensures
        find_rule(rows, id) matches Some(row) ==> row.id == id && row_valid(row),
    decreases rows.len(),
{
    if rows.len() > 0 && rows[0].id != id {
        assert forall|i: int| 0 <= i < rows.drop_first().len() implies row_valid(#[trigger] rows.drop_first()[i]) by {
            assert(rows.drop_first()[i] == rows[i + 1]);
        }
        lemma_find_rule(rows.drop_first(), id);
    } else if rows.len() > 0 {
        assert(row_valid(rows[0]));
    }
}

proof fn lemma_rule_adapter_diagnostic_invalid_valid()
    ensures
        row_valid(rule_adapter_diagnostic_invalid()),
{
    reveal_strlit("adapter.diagnostic-invalid");
    reveal_strlit("LEK-ADP-001");
    reveal_strlit("LEK-");
    assert("adapter.diagnostic-invalid"@[7] == '.');
    assert("LEK-ADP-001"@.subrange(0, 4) =~= "LEK-"@);
}

proof fn lemma_rule_classification_conflicting_kind_valid()
    ensures
        row_valid(rule_classification_conflicting_kind()),
{
    reveal_strlit("classification.conflicting-kind");
    reveal_strlit("LEK-CLS-004");
    reveal_strlit("LEK-");
    assert("classification.conflicting-kind"@[14] == '.');
    assert("LEK-CLS-004"@.subrange(0, 4) =~= "LEK-"@);
}

proof fn lemma_rule_classification_custody_ir_valid()
    ensures
        row_valid(rule_classification_custody_ir()),
{
    reveal_strlit("classification.custody-ir");
    reveal_strlit("LEK-CLS-015");
    reveal_strlit("LEK-");
    assert("classification.custody-ir"@[14] == '.');
    assert("LEK-CLS-015"@.subrange(0, 4) =~= "LEK-"@);
}

proof fn lemma_rule_classification_custody_model_valid()
    ensures
        row_valid(rule_classification_custody_model()),
{
    reveal_strlit("classification.custody-model");
    reveal_strlit("LEK-CLS-014");
    reveal_strlit("LEK-");
    assert("classification.custody-model"@[14] == '.');
    assert("LEK-CLS-014"@.subrange(0, 4) =~= "LEK-"@);
}

proof fn lemma_rule_classification_custody_project_valid()
    ensures
        row_valid(rule_classification_custody_project()),
{
    reveal_strlit("classification.custody-project");
    reveal_strlit("LEK-CLS-013");
    reveal_strlit("LEK-");
    assert("classification.custody-project"@[14] == '.');
    assert("LEK-CLS-013"@.subrange(0, 4) =~= "LEK-"@);
}

proof fn lemma_rule_classification_duplicate_subject_valid()
    ensures
        row_valid(rule_classification_duplicate_subject()),
{
    reveal_strlit("classification.duplicate-subject");
    reveal_strlit("LEK-CLS-003");
    reveal_strlit("LEK-");
    assert("classification.duplicate-subject"@[14] == '.');
    assert("LEK-CLS-003"@.subrange(0, 4) =~= "LEK-"@);
}

proof fn lemma_rule_classification_expired_declassification_valid()
    ensures
        row_valid(rule_classification_expired_declassification()),
{
    reveal_strlit("classification.expired-declassification");
    reveal_strlit("LEK-CLS-007");
    reveal_strlit("LEK-");
    assert("classification.expired-declassification"@[14] == '.');
    assert("LEK-CLS-007"@.subrange(0, 4) =~= "LEK-"@);
}

proof fn lemma_rule_classification_invalid_declassification_valid()
    ensures
        row_valid(rule_classification_invalid_declassification()),
{
    reveal_strlit("classification.invalid-declassification");
    reveal_strlit("LEK-CLS-005");
    reveal_strlit("LEK-");
    assert("classification.invalid-declassification"@[14] == '.');
    assert("LEK-CLS-005"@.subrange(0, 4) =~= "LEK-"@);
}

proof fn lemma_rule_classification_kind_rule_missing_valid()
    ensures
        row_valid(rule_classification_kind_rule_missing()),
{
    reveal_strlit("classification.kind-rule-missing");
    reveal_strlit("LEK-CLS-010");
    reveal_strlit("LEK-");
    assert("classification.kind-rule-missing"@[14] == '.');
    assert("LEK-CLS-010"@.subrange(0, 4) =~= "LEK-"@);
}

proof fn lemma_rule_classification_malformed_review_ref_valid()
    ensures
        row_valid(rule_classification_malformed_review_ref()),
{
    reveal_strlit("classification.malformed-review-ref");
    reveal_strlit("LEK-CLS-016");
    reveal_strlit("LEK-");
    assert("classification.malformed-review-ref"@[14] == '.');
    assert("LEK-CLS-016"@.subrange(0, 4) =~= "LEK-"@);
}

proof fn lemma_rule_classification_missing_approval_valid()
    ensures
        row_valid(rule_classification_missing_approval()),
{
    reveal_strlit("classification.missing-approval");
    reveal_strlit("LEK-CLS-006");
    reveal_strlit("LEK-");
    assert("classification.missing-approval"@[14] == '.');
    assert("LEK-CLS-006"@.subrange(0, 4) =~= "LEK-"@);
}

proof fn lemma_rule_classification_policy_missing_valid()
    ensures
        row_valid(rule_classification_policy_missing()),
{
    reveal_strlit("classification.policy-missing");
    reveal_strlit("LEK-CLS-009");
    reveal_strlit("LEK-");
    assert("classification.policy-missing"@[14] == '.');
    assert("LEK-CLS-009"@.subrange(0, 4) =~= "LEK-"@);
}

proof fn lemma_rule_classification_self_approved_valid()
    ensures
        row_valid(rule_classification_self_approved()),
{
    reveal_strlit("classification.self-approved");
    reveal_strlit("LEK-CLS-008");
    reveal_strlit("LEK-");
    assert("classification.self-approved"@[14] == '.');
    assert("LEK-CLS-008"@.subrange(0, 4) =~= "LEK-"@);
}

proof fn lemma_rule_classification_sink_ceiling_exceeded_valid()
    ensures
        row_valid(rule_classification_sink_ceiling_exceeded()),
{
    reveal_strlit("classification.sink-ceiling-exceeded");
    reveal_strlit("LEK-CLS-011");
    reveal_strlit("LEK-");
    assert("classification.sink-ceiling-exceeded"@[14] == '.');
    assert("LEK-CLS-011"@.subrange(0, 4) =~= "LEK-"@);
}

proof fn lemma_rule_classification_unclassified_sensitive_sink_valid()
    ensures
        row_valid(rule_classification_unclassified_sensitive_sink()),
{
    reveal_strlit("classification.unclassified-sensitive-sink");
    reveal_strlit("LEK-CLS-012");
    reveal_strlit("LEK-");
    assert("classification.unclassified-sensitive-sink"@[14] == '.');
    assert("LEK-CLS-012"@.subrange(0, 4) =~= "LEK-"@);
}

proof fn lemma_rule_classification_unknown_kind_valid()
    ensures
        row_valid(rule_classification_unknown_kind()),
{
    reveal_strlit("classification.unknown-kind");
    reveal_strlit("LEK-CLS-001");
    reveal_strlit("LEK-");
    assert("classification.unknown-kind"@[14] == '.');
    assert("LEK-CLS-001"@.subrange(0, 4) =~= "LEK-"@);
}

proof fn lemma_rule_classification_unknown_subject_valid()
    ensures
        row_valid(rule_classification_unknown_subject()),
{
    reveal_strlit("classification.unknown-subject");
    reveal_strlit("LEK-CLS-002");
    reveal_strlit("LEK-");
    assert("classification.unknown-subject"@[14] == '.');
    assert("LEK-CLS-002"@.subrange(0, 4) =~= "LEK-"@);
}

proof fn lemma_rule_cli_usage_valid()
    ensures
        row_valid(rule_cli_usage()),
{
    reveal_strlit("cli.usage");
    reveal_strlit("LEK-CLI-001");
    reveal_strlit("LEK-");
    assert("cli.usage"@[3] == '.');
    assert("LEK-CLI-001"@.subrange(0, 4) =~= "LEK-"@);
}

proof fn lemma_rule_contracted_binding_drift_valid()
    ensures
        row_valid(rule_contracted_binding_drift()),
{
    reveal_strlit("contracted.binding-drift");
    reveal_strlit("LEK-CTR-006");
    reveal_strlit("LEK-");
    assert("contracted.binding-drift"@[10] == '.');
    assert("LEK-CTR-006"@.subrange(0, 4) =~= "LEK-"@);
}

proof fn lemma_rule_contracted_coverage_missing_valid()
    ensures
        row_valid(rule_contracted_coverage_missing()),
{
    reveal_strlit("contracted.coverage-missing");
    reveal_strlit("LEK-CTR-008");
    reveal_strlit("LEK-");
    assert("contracted.coverage-missing"@[10] == '.');
    assert("LEK-CTR-008"@.subrange(0, 4) =~= "LEK-"@);
}

proof fn lemma_rule_contracted_declaration_invalid_valid()
    ensures
        row_valid(rule_contracted_declaration_invalid()),
{
    reveal_strlit("contracted.declaration-invalid");
    reveal_strlit("LEK-CTR-001");
    reveal_strlit("LEK-");
    assert("contracted.declaration-invalid"@[10] == '.');
    assert("LEK-CTR-001"@.subrange(0, 4) =~= "LEK-"@);
}

proof fn lemma_rule_contracted_declaration_limit_valid()
    ensures
        row_valid(rule_contracted_declaration_limit()),
{
    reveal_strlit("contracted.declaration-limit");
    reveal_strlit("LEK-CTR-002");
    reveal_strlit("LEK-");
    assert("contracted.declaration-limit"@[10] == '.');
    assert("LEK-CTR-002"@.subrange(0, 4) =~= "LEK-"@);
}

proof fn lemma_rule_contracted_registry_io_valid()
    ensures
        row_valid(rule_contracted_registry_io()),
{
    reveal_strlit("contracted.registry-io");
    reveal_strlit("LEK-CTR-005");
    reveal_strlit("LEK-");
    assert("contracted.registry-io"@[10] == '.');
    assert("LEK-CTR-005"@.subrange(0, 4) =~= "LEK-"@);
}

proof fn lemma_rule_contracted_stale_artifact_valid()
    ensures
        row_valid(rule_contracted_stale_artifact()),
{
    reveal_strlit("contracted.stale-artifact");
    reveal_strlit("LEK-CTR-007");
    reveal_strlit("LEK-");
    assert("contracted.stale-artifact"@[10] == '.');
    assert("LEK-CTR-007"@.subrange(0, 4) =~= "LEK-"@);
}

proof fn lemma_rule_contracted_unknown_module_valid()
    ensures
        row_valid(rule_contracted_unknown_module()),
{
    reveal_strlit("contracted.unknown-module");
    reveal_strlit("LEK-CTR-003");
    reveal_strlit("LEK-");
    assert("contracted.unknown-module"@[10] == '.');
    assert("LEK-CTR-003"@.subrange(0, 4) =~= "LEK-"@);
}

proof fn lemma_rule_contracted_unknown_symbol_valid()
    ensures
        row_valid(rule_contracted_unknown_symbol()),
{
    reveal_strlit("contracted.unknown-symbol");
    reveal_strlit("LEK-CTR-004");
    reveal_strlit("LEK-");
    assert("contracted.unknown-symbol"@[10] == '.');
    assert("LEK-CTR-004"@.subrange(0, 4) =~= "LEK-"@);
}

proof fn lemma_rule_dataflow_destination_forbidden_valid()
    ensures
        row_valid(rule_dataflow_destination_forbidden()),
{
    reveal_strlit("dataflow.destination-forbidden");
    reveal_strlit("LEK-DFL-006");
    reveal_strlit("LEK-");
    assert("dataflow.destination-forbidden"@[8] == '.');
    assert("LEK-DFL-006"@.subrange(0, 4) =~= "LEK-"@);
}

proof fn lemma_rule_dataflow_exposed_private_field_valid()
    ensures
        row_valid(rule_dataflow_exposed_private_field()),
{
    reveal_strlit("dataflow.exposed-private-field");
    reveal_strlit("LEK-DFL-008");
    reveal_strlit("LEK-");
    assert("dataflow.exposed-private-field"@[8] == '.');
    assert("LEK-DFL-008"@.subrange(0, 4) =~= "LEK-"@);
}

proof fn lemma_rule_dataflow_low_confidence_sensitive_valid()
    ensures
        row_valid(rule_dataflow_low_confidence_sensitive()),
{
    reveal_strlit("dataflow.low-confidence-sensitive");
    reveal_strlit("LEK-DFL-002");
    reveal_strlit("LEK-");
    assert("dataflow.low-confidence-sensitive"@[8] == '.');
    assert("LEK-DFL-002"@.subrange(0, 4) =~= "LEK-"@);
}

proof fn lemma_rule_dataflow_missing_approval_valid()
    ensures
        row_valid(rule_dataflow_missing_approval()),
{
    reveal_strlit("dataflow.missing-approval");
    reveal_strlit("LEK-DFL-005");
    reveal_strlit("LEK-");
    assert("dataflow.missing-approval"@[8] == '.');
    assert("LEK-DFL-005"@.subrange(0, 4) =~= "LEK-"@);
}

proof fn lemma_rule_dataflow_missing_destination_valid()
    ensures
        row_valid(rule_dataflow_missing_destination()),
{
    reveal_strlit("dataflow.missing-destination");
    reveal_strlit("LEK-DFL-004");
    reveal_strlit("LEK-");
    assert("dataflow.missing-destination"@[8] == '.');
    assert("LEK-DFL-004"@.subrange(0, 4) =~= "LEK-"@);
}

proof fn lemma_rule_dataflow_observed_incomplete_valid()
    ensures
        row_valid(rule_dataflow_observed_incomplete()),
{
    reveal_strlit("dataflow.observed-incomplete");
    reveal_strlit("LEK-DFL-007");
    reveal_strlit("LEK-");
    assert("dataflow.observed-incomplete"@[8] == '.');
    assert("LEK-DFL-007"@.subrange(0, 4) =~= "LEK-"@);
}

proof fn lemma_rule_dataflow_tenant_crossing_valid()
    ensures
        row_valid(rule_dataflow_tenant_crossing()),
{
    reveal_strlit("dataflow.tenant-crossing");
    reveal_strlit("LEK-DFL-003");
    reveal_strlit("LEK-");
    assert("dataflow.tenant-crossing"@[8] == '.');
    assert("LEK-DFL-003"@.subrange(0, 4) =~= "LEK-"@);
}

proof fn lemma_rule_dataflow_unknown_flow_valid()
    ensures
        row_valid(rule_dataflow_unknown_flow()),
{
    reveal_strlit("dataflow.unknown-flow");
    reveal_strlit("LEK-DFL-001");
    reveal_strlit("LEK-");
    assert("dataflow.unknown-flow"@[8] == '.');
    assert("LEK-DFL-001"@.subrange(0, 4) =~= "LEK-"@);
}

proof fn lemma_rule_diagnostics_registry_invalid_valid()
    ensures
        row_valid(rule_diagnostics_registry_invalid()),
{
    reveal_strlit("diagnostics.registry-invalid");
    reveal_strlit("LEK-DIAG-001");
    reveal_strlit("LEK-");
    assert("diagnostics.registry-invalid"@[11] == '.');
    assert("LEK-DIAG-001"@.subrange(0, 4) =~= "LEK-"@);
}

proof fn lemma_rule_graph_input_invalid_valid()
    ensures
        row_valid(rule_graph_input_invalid()),
{
    reveal_strlit("graph.input-invalid");
    reveal_strlit("LEK-GRA-001");
    reveal_strlit("LEK-");
    assert("graph.input-invalid"@[5] == '.');
    assert("LEK-GRA-001"@.subrange(0, 4) =~= "LEK-"@);
}

proof fn lemma_rule_graph_unknown_node_valid()
    ensures
        row_valid(rule_graph_unknown_node()),
{
    reveal_strlit("graph.unknown-node");
    reveal_strlit("LEK-GRA-003");
    reveal_strlit("LEK-");
    assert("graph.unknown-node"@[5] == '.');
    assert("LEK-GRA-003"@.subrange(0, 4) =~= "LEK-"@);
}

proof fn lemma_rule_loader_import_cycle_valid()
    ensures
        row_valid(rule_loader_import_cycle()),
{
    reveal_strlit("loader.import-cycle");
    reveal_strlit("LEK-LOAD-008");
    reveal_strlit("LEK-");
    assert("loader.import-cycle"@[6] == '.');
    assert("LEK-LOAD-008"@.subrange(0, 4) =~= "LEK-"@);
}

proof fn lemma_rule_loader_import_missing_valid()
    ensures
        row_valid(rule_loader_import_missing()),
{
    reveal_strlit("loader.import-missing");
    reveal_strlit("LEK-LOAD-010");
    reveal_strlit("LEK-");
    assert("loader.import-missing"@[6] == '.');
    assert("LEK-LOAD-010"@.subrange(0, 4) =~= "LEK-"@);
}

proof fn lemma_rule_loader_json_parse_valid()
    ensures
        row_valid(rule_loader_json_parse()),
{
    reveal_strlit("loader.json-parse");
    reveal_strlit("LEK-LOAD-001");
    reveal_strlit("LEK-");
    assert("loader.json-parse"@[6] == '.');
    assert("LEK-LOAD-001"@.subrange(0, 4) =~= "LEK-"@);
}

/// Every embedded row carries a well-formed rule id and code.
pub proof fn lemma_rule_table_valid()
    ensures
        forall|i: int| 0 <= i < rule_table().len() ==> row_valid(#[trigger] rule_table()[i]),
{
    lemma_rule_adapter_diagnostic_invalid_valid();
    lemma_rule_classification_conflicting_kind_valid();
    lemma_rule_classification_custody_ir_valid();
    lemma_rule_classification_custody_model_valid();
    lemma_rule_classification_custody_project_valid();
    lemma_rule_classification_duplicate_subject_valid();
    lemma_rule_classification_expired_declassification_valid();
    lemma_rule_classification_invalid_declassification_valid();
    lemma_rule_classification_kind_rule_missing_valid();
    lemma_rule_classification_malformed_review_ref_valid();
    lemma_rule_classification_missing_approval_valid();
    lemma_rule_classification_policy_missing_valid();
    lemma_rule_classification_self_approved_valid();
    lemma_rule_classification_sink_ceiling_exceeded_valid();
    lemma_rule_classification_unclassified_sensitive_sink_valid();
    lemma_rule_classification_unknown_kind_valid();
    lemma_rule_classification_unknown_subject_valid();
    lemma_rule_cli_usage_valid();
    lemma_rule_contracted_binding_drift_valid();
    lemma_rule_contracted_coverage_missing_valid();
    lemma_rule_contracted_declaration_invalid_valid();
    lemma_rule_contracted_declaration_limit_valid();
    lemma_rule_contracted_registry_io_valid();
    lemma_rule_contracted_stale_artifact_valid();
    lemma_rule_contracted_unknown_module_valid();
    lemma_rule_contracted_unknown_symbol_valid();
    lemma_rule_dataflow_destination_forbidden_valid();
    lemma_rule_dataflow_exposed_private_field_valid();
    lemma_rule_dataflow_low_confidence_sensitive_valid();
    lemma_rule_dataflow_missing_approval_valid();
    lemma_rule_dataflow_missing_destination_valid();
    lemma_rule_dataflow_observed_incomplete_valid();
    lemma_rule_dataflow_tenant_crossing_valid();
    lemma_rule_dataflow_unknown_flow_valid();
    lemma_rule_diagnostics_registry_invalid_valid();
    lemma_rule_graph_input_invalid_valid();
    lemma_rule_graph_unknown_node_valid();
    lemma_rule_loader_import_cycle_valid();
    lemma_rule_loader_import_missing_valid();
    lemma_rule_loader_json_parse_valid();
    let t = rule_table();
    assert(t[0] == rule_adapter_diagnostic_invalid());
    assert(t[1] == rule_classification_conflicting_kind());
    assert(t[2] == rule_classification_custody_ir());
    assert(t[3] == rule_classification_custody_model());
    assert(t[4] == rule_classification_custody_project());
    assert(t[5] == rule_classification_duplicate_subject());
    assert(t[6] == rule_classification_expired_declassification());
    assert(t[7] == rule_classification_invalid_declassification());
    assert(t[8] == rule_classification_kind_rule_missing());
    assert(t[9] == rule_classification_malformed_review_ref());
    assert(t[10] == rule_classification_missing_approval());
    assert(t[11] == rule_classification_policy_missing());
    assert(t[12] == rule_classification_self_approved());
    assert(t[13] == rule_classification_sink_ceiling_exceeded());
    assert(t[14] == rule_classification_unclassified_sensitive_sink());
    assert(t[15] == rule_classification_unknown_kind());
    assert(t[16] == rule_classification_unknown_subject());
    assert(t[17] == rule_cli_usage());
    assert(t[18] == rule_contracted_binding_drift());
    assert(t[19] == rule_contracted_coverage_missing());
    assert(t[20] == rule_contracted_declaration_invalid());
    assert(t[21] == rule_contracted_declaration_limit());
    assert(t[22] == rule_contracted_registry_io());
    assert(t[23] == rule_contracted_stale_artifact());
    assert(t[24] == rule_contracted_unknown_module());
    assert(t[25] == rule_contracted_unknown_symbol());
    assert(t[26] == rule_dataflow_destination_forbidden());
    assert(t[27] == rule_dataflow_exposed_private_field());
    assert(t[28] == rule_dataflow_low_confidence_sensitive());
    assert(t[29] == rule_dataflow_missing_approval());
    assert(t[30] == rule_dataflow_missing_destination());
    assert(t[31] == rule_dataflow_observed_incomplete());
    assert(t[32] == rule_dataflow_tenant_crossing());
    assert(t[33] == rule_dataflow_unknown_flow());
    assert(t[34] == rule_diagnostics_registry_invalid());
    assert(t[35] == rule_graph_input_invalid());
    assert(t[36] == rule_graph_unknown_node());
    assert(t[37] == rule_loader_import_cycle());
    assert(t[38] == rule_loader_import_missing());
    assert(t[39] == rule_loader_json_parse());
}

/// The first row with a given id is found at its index.
pub proof fn lemma_find_rule_at(rows: Seq<RuleRow>, id: Seq<char>, k: int)
    requires
        0 <= k < rows.len(),
        rows[k].id == id,
        forall|j: int| 0 <= j < k ==> #[trigger] rows[j].id != id,
    ensures
        find_rule(rows, id) == Some(rows[k]),
    decreases k,
{
    if k > 0 {
        assert(rows[0].id != id);
        assert forall|j: int| 0 <= j < k - 1 implies #[trigger] rows.drop_first()[j].id != id by {
            assert(rows.drop_first()[j] == rows[j + 1]);
        }
        lemma_find_rule_at(rows.drop_first(), id, k - 1);
    }
}

/// `adapter.diagnostic-invalid` finds its own row.
pub proof fn lemma_found_adapter_diagnostic_invalid()
    ensures
        find_rule(rule_table(), "adapter.diagnostic-invalid"@) == Some(rule_adapter_diagnostic_invalid()),
{
    reveal_strlit("adapter.diagnostic-invalid");
    assert("adapter.diagnostic-invalid"@.len() == 26);
    let t = rule_table();
    assert(t[0] == rule_adapter_diagnostic_invalid());
    lemma_find_rule_at(t, "adapter.diagnostic-invalid"@, 0);
}

/// `classification.conflicting-kind` finds its own row.
pub proof fn lemma_found_classification_conflicting_kind()
    ensures
        find_rule(rule_table(), "classification.conflicting-kind"@) == Some(rule_classification_conflicting_kind()),
{
    reveal_strlit("adapter.diagnostic-invalid");
    reveal_strlit("classification.conflicting-kind");
    assert("adapter.diagnostic-invalid"@.len() == 26);
    assert("classification.conflicting-kind"@.len() == 31);
    let t = rule_table();
    assert(t[0].id != "classification.conflicting-kind"@);
    assert(t[1] == rule_classification_conflicting_kind());
    lemma_find_rule_at(t, "classification.conflicting-kind"@, 1);
}

/// `classification.custody-ir` finds its own row.
pub proof fn lemma_found_classification_custody_ir()
    ensures
        find_rule(rule_table(), "classification.custody-ir"@) == Some(rule_classification_custody_ir()),
{
    reveal_strlit("adapter.diagnostic-invalid");
    reveal_strlit("classification.conflicting-kind");
    reveal_strlit("classification.custody-ir");
    assert("adapter.diagnostic-invalid"@.len() == 26);
    assert("classification.conflicting-kind"@.len() == 31);
    assert("classification.custody-ir"@.len() == 25);
    let t = rule_table();
    assert(t[0].id != "classification.custody-ir"@);
    assert(t[1].id != "classification.custody-ir"@);
    assert(t[2] == rule_classification_custody_ir());
    lemma_find_rule_at(t, "classification.custody-ir"@, 2);
}

/// `classification.custody-model` finds its own row.
pub proof fn lemma_found_classification_custody_model()
    ensures
        find_rule(rule_table(), "classification.custody-model"@) == Some(rule_classification_custody_model()),
{
    reveal_strlit("adapter.diagnostic-invalid");
    reveal_strlit("classification.conflicting-kind");
    reveal_strlit("classification.custody-ir");
    reveal_strlit("classification.custody-model");
    assert("adapter.diagnostic-invalid"@.len() == 26);
    assert("classification.conflicting-kind"@.len() == 31);
    assert("classification.custody-ir"@.len() == 25);
    assert("classification.custody-model"@.len() == 28);
    let t = rule_table();
    assert(t[0].id != "classification.custody-model"@);
    assert(t[1].id != "classification.custody-model"@);
    assert(t[2].id != "classification.custody-model"@);
    assert(t[3] == rule_classification_custody_model());
    lemma_find_rule_at(t, "classification.custody-model"@, 3);
}

/// `classification.custody-project` finds its own row.
pub proof fn lemma_found_classification_custody_project()
    ensures
        find_rule(rule_table(), "classification.custody-project"@) == Some(rule_classification_custody_project()),
{
    reveal_strlit("adapter.diagnostic-invalid");
    reveal_strlit("classification.conflicting-kind");
    reveal_strlit("classification.custody-ir");
    reveal_strlit("classification.custody-model");
    reveal_strlit("classification.custody-project");
    assert("adapter.diagnostic-invalid"@.len() == 26);
    assert("classification.conflicting-kind"@.len() == 31);
    assert("classification.custody-ir"@.len() == 25);
    assert("classification.custody-model"@.len() == 28);
    assert("classification.custody-project"@.len() == 30);
    let t = rule_table();
    assert(t[0].id != "classification.custody-project"@);
    assert(t[1].id != "classification.custody-project"@);
    assert(t[2].id != "classification.custody-project"@);
    assert(t[3].id != "classification.custody-project"@);
    assert(t[4] == rule_classification_custody_project());
    lemma_find_rule_at(t, "classification.custody-project"@, 4);
}

/// `classification.duplicate-subject` finds its own row.
pub proof fn lemma_found_classification_duplicate_subject()
    ensures
        find_rule(rule_table(), "classification.duplicate-subject"@) == Some(rule_classification_duplicate_subject()),
{
    reveal_strlit("adapter.diagnostic-invalid");
    reveal_strlit("classification.conflicting-kind");
    reveal_strlit("classification.custody-ir");
    reveal_strlit("classification.custody-model");
    reveal_strlit("classification.custody-project");
    reveal_strlit("classification.duplicate-subject");
    assert("adapter.diagnostic-invalid"@.len() == 26);
    assert("classification.conflicting-kind"@.len() == 31);
    assert("classification.custody-ir"@.len() == 25);
    assert("classification.custody-model"@.len() == 28);
    assert("classification.custody-project"@.len() == 30);
    assert("classification.duplicate-subject"@.len() == 32);
    let t = rule_table();
    assert(t[0].id != "classification.duplicate-subject"@);
    assert(t[1].id != "classification.duplicate-subject"@);
    assert(t[2].id != "classification.duplicate-subject"@);
    assert(t[3].id != "classification.duplicate-subject"@);
    assert(t[4].id != "classification.duplicate-subject"@);
    assert(t[5] == rule_classification_duplicate_subject());
    lemma_find_rule_at(t, "classification.duplicate-subject"@, 5);
}

/// `classification.expired-declassification` finds its own row.
pub proof fn lemma_found_classification_expired_declassification()
    ensures
        find_rule(rule_table(), "classification.expired-declassification"@) == Some(rule_classification_expired_declassification()),
{
    reveal_strlit("adapter.diagnostic-invalid");
    reveal_strlit("classification.conflicting-kind");
    reveal_strlit("classification.custody-ir");
    reveal_strlit("classification.custody-model");
    reveal_strlit("classification.custody-project");
    reveal_strlit("classification.duplicate-subject");
    reveal_strlit("classification.expired-declassification");
    assert("adapter.diagnostic-invalid"@.len() == 26);
    assert("classification.conflicting-kind"@.len() == 31);
    assert("classification.custody-ir"@.len() == 25);
    assert("classification.custody-model"@.len() == 28);
    assert("classification.custody-project"@.len() == 30);
    assert("classification.duplicate-subject"@.len() == 32);
    assert("classification.expired-declassification"@.len() == 39);
    let t = rule_table();
    assert(t[0].id != "classification.expired-declassification"@);
    assert(t[1].id != "classification.expired-declassification"@);
    assert(t[2].id != "classification.expired-declassification"@);
    assert(t[3].id != "classification.expired-declassification"@);
    assert(t[4].id != "classification.expired-declassification"@);
    assert(t[5].id != "classification.expired-declassification"@);
    assert(t[6] == rule_classification_expired_declassification());
    lemma_find_rule_at(t, "classification.expired-declassification"@, 6);
}

/// `classification.invalid-declassification` finds its own row.
pub proof fn lemma_found_classification_invalid_declassification()
    ensures
        find_rule(rule_table(), "classification.invalid-declassification"@) == Some(rule_classification_invalid_declassification()),
{
    reveal_strlit("adapter.diagnostic-invalid");
    reveal_strlit("classification.conflicting-kind");
    reveal_strlit("classification.custody-ir");
    reveal_strlit("classification.custody-model");
    reveal_strlit("classification.custody-project");
    reveal_strlit("classification.duplicate-subject");
    reveal_strlit("classification.expired-declassification");
    reveal_strlit("classification.invalid-declassification");
    assert("adapter.diagnostic-invalid"@.len() == 26);
    assert("classification.conflicting-kind"@.len() == 31);
    assert("classification.custody-ir"@.len() == 25);
    assert("classification.custody-model"@.len() == 28);
    assert("classification.custody-project"@.len() == 30);
    assert("classification.duplicate-subject"@.len() == 32);
    assert("classification.expired-declassification"@.len() == 39);
    assert("classification.invalid-declassification"@.len() == 39);
    assert("classification.expired-declassification"@[15] == 'e');
    assert("classification.invalid-declassification"@[15] == 'i');
    let t = rule_table();
    assert(t[0].id != "classification.invalid-declassification"@);
    assert(t[1].id != "classification.invalid-declassification"@);
    assert(t[2].id != "classification.invalid-declassification"@);
    assert(t[3].id != "classification.invalid-declassification"@);
    assert(t[4].id != "classification.invalid-declassification"@);
    assert(t[5].id != "classification.invalid-declassification"@);
    assert(t[6].id != "classification.invalid-declassification"@);
    assert(t[7] == rule_classification_invalid_declassification());
    lemma_find_rule_at(t, "classification.invalid-declassification"@, 7);
}

/// `classification.kind-rule-missing` finds its own row.
pub proof fn lemma_found_classification_kind_rule_missing()
    ensures
        find_rule(rule_table(), "classification.kind-rule-missing"@) == Some(rule_classification_kind_rule_missing()),
{
    reveal_strlit("adapter.diagnostic-invalid");
    reveal_strlit("classification.conflicting-kind");
    reveal_strlit("classification.custody-ir");
    reveal_strlit("classification.custody-model");
    reveal_strlit("classification.custody-project");
    reveal_strlit("classification.duplicate-subject");
    reveal_strlit("classification.expired-declassification");
    reveal_strlit("classification.invalid-declassification");
    reveal_strlit("classification.kind-rule-missing");
    assert("adapter.diagnostic-invalid"@.len() == 26);
    assert("classification.conflicting-kind"@.len() == 31);
    assert("classification.custody-ir"@.len() == 25);
    assert("classification.custody-model"@.len() == 28);
    assert("classification.custody-project"@.len() == 30);
    assert("classification.duplicate-subject"@.len() == 32);
    assert("classification.expired-declassification"@.len() == 39);
    assert("classification.invalid-declassification"@.len() == 39);
    assert("classification.kind-rule-missing"@.len() == 32);
    assert("classification.duplicate-subject"@[15] == 'd');
    assert("classification.kind-rule-missing"@[15] == 'k');
    let t = rule_table();
    assert(t[0].id != "classification.kind-rule-missing"@);
    assert(t[1].id != "classification.kind-rule-missing"@);
    assert(t[2].id != "classification.kind-rule-missing"@);
    assert(t[3].id != "classification.kind-rule-missing"@);
    assert(t[4].id != "classification.kind-rule-missing"@);
    assert(t[5].id != "classification.kind-rule-missing"@);
    assert(t[6].id != "classification.kind-rule-missing"@);
    assert(t[7].id != "classification.kind-rule-missing"@);
    assert(t[8] == rule_classification_kind_rule_missing());
    lemma_find_rule_at(t, "classification.kind-rule-missing"@, 8);
}

/// `classification.malformed-review-ref` finds its own row.
pub proof fn lemma_found_classification_malformed_review_ref()
    ensures
        find_rule(rule_table(), "classification.malformed-review-ref"@) == Some(rule_classification_malformed_review_ref()),
{
    reveal_strlit("adapter.diagnostic-invalid");
    reveal_strlit("classification.conflicting-kind");
    reveal_strlit("classification.custody-ir");
    reveal_strlit("classification.custody-model");
    reveal_strlit("classification.custody-project");
    reveal_strlit("classification.duplicate-subject");
    reveal_strlit("classification.expired-declassification");
    reveal_strlit("classification.invalid-declassification");
    reveal_strlit("classification.kind-rule-missing");
    reveal_strlit("classification.malformed-review-ref");
    assert("adapter.diagnostic-invalid"@.len() == 26);
    assert("classification.conflicting-kind"@.len() == 31);
    assert("classification.custody-ir"@.len() == 25);
    assert("classification.custody-model"@.len() == 28);
    assert("classification.custody-project"@.len() == 30);
    assert("classification.duplicate-subject"@.len() == 32);
    assert("classification.expired-declassification"@.len() == 39);
    assert("classification.invalid-declassification"@.len() == 39);
    assert("classification.kind-rule-missing"@.len() == 32);
    assert("classification.malformed-review-ref"@.len() == 35);
    let t = rule_table();
    assert(t[0].id != "classification.malformed-review-ref"@);
    assert(t[1].id != "classification.malformed-review-ref"@);
    assert(t[2].id != "classification.malformed-review-ref"@);
    assert(t[3].id != "classification.malformed-review-ref"@);
    assert(t[4].id != "classification.malformed-review-ref"@);
    assert(t[5].id != "classification.malformed-review-ref"@);
    assert(t[6].id != "classification.malformed-review-ref"@);
    assert(t[7].id != "classification.malformed-review-ref"@);
    assert(t[8].id != "classification.malformed-review-ref"@);
    assert(t[9] == rule_classification_malformed_review_ref());
    lemma_find_rule_at(t, "classification.malformed-review-ref"@, 9);
}

/// `classification.missing-approval` finds its own row.
pub proof fn lemma_found_classification_missing_approval()
    ensures
        find_rule(rule_table(), "classification.missing-approval"@) == Some(rule_classification_missing_approval()),
{
    reveal_strlit("adapter.diagnostic-invalid");
    reveal_strlit("classification.conflicting-kind");
    reveal_strlit("classification.custody-ir");
    reveal_strlit("classification.custody-model");
    reveal_strlit("classification.custody-project");
    reveal_strlit("classification.duplicate-subject");
    reveal_strlit("classification.expired-declassification");
    reveal_strlit("classification.invalid-declassification");
    reveal_strlit("classification.kind-rule-missing");
    reveal_strlit("classification.malformed-review-ref");
    reveal_strlit("classification.missing-approval");
    assert("adapter.diagnostic-invalid"@.len() == 26);
    assert("classification.conflicting-kind"@.len() == 31);
    assert("classification.custody-ir"@.len() == 25);
    assert("classification.custody-model"@.len() == 28);
    assert("classification.custody-project"@.len() == 30);
    assert("classification.duplicate-subject"@.len() == 32);
    assert("classification.expired-declassification"@.len() == 39);
    assert("classification.invalid-declassification"@.len() == 39);
    assert("classification.kind-rule-missing"@.len() == 32);
    assert("classification.malformed-review-ref"@.len() == 35);
    assert("classification.missing-approval"@.len() == 31);
    assert("classification.conflicting-kind"@[15] == 'c');
    assert("classification.missing-approval"@[15] == 'm');
    let t = rule_table();
    assert(t[0].id != "classification.missing-approval"@);
    assert(t[1].id != "classification.missing-approval"@);
    assert(t[2].id != "classification.missing-approval"@);
    assert(t[3].id != "classification.missing-approval"@);
    assert(t[4].id != "classification.missing-approval"@);
    assert(t[5].id != "classification.missing-approval"@);
    assert(t[6].id != "classification.missing-approval"@);
    assert(t[7].id != "classification.missing-approval"@);
    assert(t[8].id != "classification.missing-approval"@);
    assert(t[9].id != "classification.missing-approval"@);
    assert(t[10] == rule_classification_missing_approval());
    lemma_find_rule_at(t, "classification.missing-approval"@, 10);
}

/// `classification.policy-missing` finds its own row.
pub proof fn lemma_found_classification_policy_missing()
    ensures
        find_rule(rule_table(), "classification.policy-missing"@) == Some(rule_classification_policy_missing()),
{
    reveal_strlit("adapter.diagnostic-invalid");
    reveal_strlit("classification.conflicting-kind");
    reveal_strlit("classification.custody-ir");
    reveal_strlit("classification.custody-model");
    reveal_strlit("classification.custody-project");
    reveal_strlit("classification.duplicate-subject");
    reveal_strlit("classification.expired-declassification");
    reveal_strlit("classification.invalid-declassification");
    reveal_strlit("classification.kind-rule-missing");
    reveal_strlit("classification.malformed-review-ref");
    reveal_strlit("classification.missing-approval");
    reveal_strlit("classification.policy-missing");
    assert("adapter.diagnostic-invalid"@.len() == 26);
    assert("classification.conflicting-kind"@.len() == 31);
    assert("classification.custody-ir"@.len() == 25);
    assert("classification.custody-model"@.len() == 28);
    assert("classification.custody-project"@.len() == 30);
    assert("classification.duplicate-subject"@.len() == 32);
    assert("classification.expired-declassification"@.len() == 39);
    assert("classification.invalid-declassification"@.len() == 39);
    assert("classification.kind-rule-missing"@.len() == 32);
    assert("classification.malformed-review-ref"@.len() == 35);
    assert("classification.missing-approval"@.len() == 31);
    assert("classification.policy-missing"@.len() == 29);
    let t = rule_table();
    assert(t[0].id != "classification.policy-missing"@);
    assert(t[1].id != "classification.policy-missing"@);
    assert(t[2].id != "classification.policy-missing"@);
    assert(t[3].id != "classification.policy-missing"@);
    assert(t[4].id != "classification.policy-missing"@);
    assert(t[5].id != "classification.policy-missing"@);
    assert(t[6].id != "classification.policy-missing"@);
    assert(t[7].id != "classification.policy-missing"@);
    assert(t[8].id != "classification.policy-missing"@);
    assert(t[9].id != "classification.policy-missing"@);
    assert(t[10].id != "classification.policy-missing"@);
    assert(t[11] == rule_classification_policy_missing());
    lemma_find_rule_at(t, "classification.policy-missing"@, 11);
}

/// `classification.self-approved` finds its own row.
pub proof fn lemma_found_classification_self_approved()
    ensures
        find_rule(rule_table(), "classification.self-approved"@) == Some(rule_classification_self_approved()),
{
    reveal_strlit("adapter.diagnostic-invalid");
    reveal_strlit("classification.conflicting-kind");
    reveal_strlit("classification.custody-ir");
    reveal_strlit("classification.custody-model");
    reveal_strlit("classification.custody-project");
    reveal_strlit("classification.duplicate-subject");
    reveal_strlit("classification.expired-declassification");
    reveal_strlit("classification.invalid-declassification");
    reveal_strlit("classification.kind-rule-missing");
    reveal_strlit("classification.malformed-review-ref");
    reveal_strlit("classification.missing-approval");
    reveal_strlit("classification.policy-missing");
    reveal_strlit("classification.self-approved");
    assert("adapter.diagnostic-invalid"@.len() == 26);
    assert("classification.conflicting-kind"@.len() == 31);
    assert("classification.custody-ir"@.len() == 25);
    assert("classification.custody-model"@.len() == 28);
    assert("classification.custody-project"@.len() == 30);
    assert("classification.duplicate-subject"@.len() == 32);
    assert("classification.expired-declassification"@.len() == 39);
    assert("classification.invalid-declassification"@.len() == 39);
    assert("classification.kind-rule-missing"@.len() == 32);
    assert("classification.malformed-review-ref"@.len() == 35);
    assert("classification.missing-approval"@.len() == 31);
    assert("classification.policy-missing"@.len() == 29);
    assert("classification.self-approved"@.len() == 28);
    assert("classification.custody-model"@[15] == 'c');
    assert("classification.self-approved"@[15] == 's');
    let t = rule_table();
    assert(t[0].id != "classification.self-approved"@);
    assert(t[1].id != "classification.self-approved"@);
    assert(t[2].id != "classification.self-approved"@);
    assert(t[3].id != "classification.self-approved"@);
    assert(t[4].id != "classification.self-approved"@);
    assert(t[5].id != "classification.self-approved"@);
    assert(t[6].id != "classification.self-approved"@);
    assert(t[7].id != "classification.self-approved"@);
    assert(t[8].id != "classification.self-approved"@);
    assert(t[9].id != "classification.self-approved"@);
    assert(t[10].id != "classification.self-approved"@);
    assert(t[11].id != "classification.self-approved"@);
    assert(t[12] == rule_classification_self_approved());
    lemma_find_rule_at(t, "classification.self-approved"@, 12);
}

/// `classification.sink-ceiling-exceeded` finds its own row.
pub proof fn lemma_found_classification_sink_ceiling_exceeded()
    ensures
        find_rule(rule_table(), "classification.sink-ceiling-exceeded"@) == Some(rule_classification_sink_ceiling_exceeded()),
{
    reveal_strlit("adapter.diagnostic-invalid");
    reveal_strlit("classification.conflicting-kind");
    reveal_strlit("classification.custody-ir");
    reveal_strlit("classification.custody-model");
    reveal_strlit("classification.custody-project");
    reveal_strlit("classification.duplicate-subject");
    reveal_strlit("classification.expired-declassification");
    reveal_strlit("classification.invalid-declassification");
    reveal_strlit("classification.kind-rule-missing");
    reveal_strlit("classification.malformed-review-ref");
    reveal_strlit("classification.missing-approval");
    reveal_strlit("classification.policy-missing");
    reveal_strlit("classification.self-approved");
    reveal_strlit("classification.sink-ceiling-exceeded");
    assert("adapter.diagnostic-invalid"@.len() == 26);
    assert("classification.conflicting-kind"@.len() == 31);
    assert("classification.custody-ir"@.len() == 25);
    assert("classification.custody-model"@.len() == 28);
    assert("classification.custody-project"@.len() == 30);
    assert("classification.duplicate-subject"@.len() == 32);
    assert("classification.expired-declassification"@.len() == 39);
    assert("classification.invalid-declassification"@.len() == 39);
    assert("classification.kind-rule-missing"@.len() == 32);
    assert("classification.malformed-review-ref"@.len() == 35);
    assert("classification.missing-approval"@.len() == 31);
    assert("classification.policy-missing"@.len() == 29);
    assert("classification.self-approved"@.len() == 28);
    assert("classification.sink-ceiling-exceeded"@.len() == 36);
    let t = rule_table();
    assert(t[0].id != "classification.sink-ceiling-exceeded"@);
    assert(t[1].id != "classification.sink-ceiling-exceeded"@);
    assert(t[2].id != "classification.sink-ceiling-exceeded"@);
    assert(t[3].id != "classification.sink-ceiling-exceeded"@);
    assert(t[4].id != "classification.sink-ceiling-exceeded"@);
    assert(t[5].id != "classification.sink-ceiling-exceeded"@);
    assert(t[6].id != "classification.sink-ceiling-exceeded"@);
    assert(t[7].id != "classification.sink-ceiling-exceeded"@);
    assert(t[8].id != "classification.sink-ceiling-exceeded"@);
    assert(t[9].id != "classification.sink-ceiling-exceeded"@);
    assert(t[10].id != "classification.sink-ceiling-exceeded"@);
    assert(t[11].id != "classification.sink-ceiling-exceeded"@);
    assert(t[12].id != "classification.sink-ceiling-exceeded"@);
    assert(t[13] == rule_classification_sink_ceiling_exceeded());
    lemma_find_rule_at(t, "classification.sink-ceiling-exceeded"@, 13);
}

/// `classification.unclassified-sensitive-sink` finds its own row.
pub proof fn lemma_found_classification_unclassified_sensitive_sink()
    ensures
        find_rule(rule_table(), "classification.unclassified-sensitive-sink"@) == Some(rule_classification_unclassified_sensitive_sink()),
{
    reveal_strlit("adapter.diagnostic-invalid");
    reveal_strlit("classification.conflicting-kind");
    reveal_strlit("classification.custody-ir");
    reveal_strlit("classification.custody-model");
    reveal_strlit("classification.custody-project");
    reveal_strlit("classification.duplicate-subject");
    reveal_strlit("classification.expired-declassification");
    reveal_strlit("classification.invalid-declassification");
    reveal_strlit("classification.kind-rule-missing");
    reveal_strlit("classification.malformed-review-ref");
    reveal_strlit("classification.missing-approval");
    reveal_strlit("classification.policy-missing");
    reveal_strlit("classification.self-approved");
    reveal_strlit("classification.sink-ceiling-exceeded");
    reveal_strlit("classification.unclassified-sensitive-sink");
    assert("adapter.diagnostic-invalid"@.len() == 26);
    assert("classification.conflicting-kind"@.len() == 31);
    assert("classification.custody-ir"@.len() == 25);
    assert("classification.custody-model"@.len() == 28);
    assert("classification.custody-project"@.len() == 30);
    assert("classification.duplicate-subject"@.len() == 32);
    assert("classification.expired-declassification"@.len() == 39);
    assert("classification.invalid-declassification"@.len() == 39);
    assert("classification.kind-rule-missing"@.len() == 32);
    assert("classification.malformed-review-ref"@.len() == 35);
    assert("classification.missing-approval"@.len() == 31);
    assert("classification.policy-missing"@.len() == 29);
    assert("classification.self-approved"@.len() == 28);
    assert("classification.sink-ceiling-exceeded"@.len() == 36);
    assert("classification.unclassified-sensitive-sink"@.len() == 42);
    let t = rule_table();
    assert(t[0].id != "classification.unclassified-sensitive-sink"@);
    assert(t[1].id != "classification.unclassified-sensitive-sink"@);
    assert(t[2].id != "classification.unclassified-sensitive-sink"@);
    assert(t[3].id != "classification.unclassified-sensitive-sink"@);
    assert(t[4].id != "classification.unclassified-sensitive-sink"@);
    assert(t[5].id != "classification.unclassified-sensitive-sink"@);
    assert(t[6].id != "classification.unclassified-sensitive-sink"@);
    assert(t[7].id != "classification.unclassified-sensitive-sink"@);
    assert(t[8].id != "classification.unclassified-sensitive-sink"@);
    assert(t[9].id != "classification.unclassified-sensitive-sink"@);
    assert(t[10].id != "classification.unclassified-sensitive-sink"@);
    assert(t[11].id != "classification.unclassified-sensitive-sink"@);
    assert(t[12].id != "classification.unclassified-sensitive-sink"@);
    assert(t[13].id != "classification.unclassified-sensitive-sink"@);
    assert(t[14] == rule_classification_unclassified_sensitive_sink());
    lemma_find_rule_at(t, "classification.unclassified-sensitive-sink"@, 14);
}

/// `classification.unknown-kind` finds its own row.
pub proof fn lemma_found_classification_unknown_kind()
    ensures
        find_rule(rule_table(), "classification.unknown-kind"@) == Some(rule_classification_unknown_kind()),
{
    reveal_strlit("adapter.diagnostic-invalid");
    reveal_strlit("classification.conflicting-kind");
    reveal_strlit("classification.custody-ir");
    reveal_strlit("classification.custody-model");
    reveal_strlit("classification.custody-project");
    reveal_strlit("classification.duplicate-subject");
    reveal_strlit("classification.expired-declassification");
    reveal_strlit("classification.invalid-declassification");
    reveal_strlit("classification.kind-rule-missing");
    reveal_strlit("classification.malformed-review-ref");
    reveal_strlit("classification.missing-approval");
    reveal_strlit("classification.policy-missing");
    reveal_strlit("classification.self-approved");
    reveal_strlit("classification.sink-ceiling-exceeded");
    reveal_strlit("classification.unclassified-sensitive-sink");
    reveal_strlit("classification.unknown-kind");
    assert("adapter.diagnostic-invalid"@.len() == 26);
    assert("classification.conflicting-kind"@.len() == 31);
    assert("classification.custody-ir"@.len() == 25);
    assert("classification.custody-model"@.len() == 28);
    assert("classification.custody-project"@.len() == 30);
    assert("classification.duplicate-subject"@.len() == 32);
    assert("classification.expired-declassification"@.len() == 39);
    assert("classification.invalid-declassification"@.len() == 39);
    assert("classification.kind-rule-missing"@.len() == 32);
    assert("classification.malformed-review-ref"@.len() == 35);
    assert("classification.missing-approval"@.len() == 31);
    assert("classification.policy-missing"@.len() == 29);
    assert("classification.self-approved"@.len() == 28);
    assert("classification.sink-ceiling-exceeded"@.len() == 36);
    assert("classification.unclassified-sensitive-sink"@.len() == 42);
    assert("classification.unknown-kind"@.len() == 27);
    let t = rule_table();
    assert(t[0].id != "classification.unknown-kind"@);
    assert(t[1].id != "classification.unknown-kind"@);
    assert(t[2].id != "classification.unknown-kind"@);
    assert(t[3].id != "classification.unknown-kind"@);
    assert(t[4].id != "classification.unknown-kind"@);
    assert(t[5].id != "classification.unknown-kind"@);
    assert(t[6].id != "classification.unknown-kind"@);
    assert(t[7].id != "classification.unknown-kind"@);
    assert(t[8].id != "classification.unknown-kind"@);
    assert(t[9].id != "classification.unknown-kind"@);
    assert(t[10].id != "classification.unknown-kind"@);
    assert(t[11].id != "classification.unknown-kind"@);
    assert(t[12].id != "classification.unknown-kind"@);
    assert(t[13].id != "classification.unknown-kind"@);
    assert(t[14].id != "classification.unknown-kind"@);
    assert(t[15] == rule_classification_unknown_kind());
    lemma_find_rule_at(t, "classification.unknown-kind"@, 15);
}

/// `classification.unknown-subject` finds its own row.
pub proof fn lemma_found_classification_unknown_subject()
    ensures
        find_rule(rule_table(), "classification.unknown-subject"@) == Some(rule_classification_unknown_subject()),
{
    reveal_strlit("adapter.diagnostic-invalid");
    reveal_strlit("classification.conflicting-kind");
    reveal_strlit("classification.custody-ir");
    reveal_strlit("classification.custody-model");
    reveal_strlit("classification.custody-project");
    reveal_strlit("classification.duplicate-subject");
    reveal_strlit("classification.expired-declassification");
    reveal_strlit("classification.invalid-declassification");
    reveal_strlit("classification.kind-rule-missing");
    reveal_strlit("classification.malformed-review-ref");
    reveal_strlit("classification.missing-approval");
    reveal_strlit("classification.policy-missing");
    reveal_strlit("classification.self-approved");
    reveal_strlit("classification.sink-ceiling-exceeded");
    reveal_strlit("classification.unclassified-sensitive-sink");
    reveal_strlit("classification.unknown-kind");
    reveal_strlit("classification.unknown-subject");
    assert("adapter.diagnostic-invalid"@.len() == 26);
    assert("classification.conflicting-kind"@.len() == 31);
    assert("classification.custody-ir"@.len() == 25);
    assert("classification.custody-model"@.len() == 28);
    assert("classification.custody-project"@.len() == 30);
    assert("classification.duplicate-subject"@.len() == 32);
    assert("classification.expired-declassification"@.len() == 39);
    assert("classification.invalid-declassification"@.len() == 39);
    assert("classification.kind-rule-missing"@.len() == 32);
    assert("classification.malformed-review-ref"@.len() == 35);
    assert("classification.missing-approval"@.len() == 31);
    assert("classification.policy-missing"@.len() == 29);
    assert("classification.self-approved"@.len() == 28);
    assert("classification.sink-ceiling-exceeded"@.len() == 36);
    assert("classification.unclassified-sensitive-sink"@.len() == 42);
    assert("classification.unknown-kind"@.len() == 27);
    assert("classification.unknown-subject"@.len() == 30);
    assert("classification.custody-project"@[15] == 'c');
    assert("classification.unknown-subject"@[15] == 'u');
    let t = rule_table();
    assert(t[0].id != "classification.unknown-subject"@);
    assert(t[1].id != "classification.unknown-subject"@);
    assert(t[2].id != "classification.unknown-subject"@);
    assert(t[3].id != "classification.unknown-subject"@);
    assert(t[4].id != "classification.unknown-subject"@);
    assert(t[5].id != "classification.unknown-subject"@);
    assert(t[6].id != "classification.unknown-subject"@);
    assert(t[7].id != "classification.unknown-subject"@);
    assert(t[8].id != "classification.unknown-subject"@);
    assert(t[9].id != "classification.unknown-subject"@);
    assert(t[10].id != "classification.unknown-subject"@);
    assert(t[11].id != "classification.unknown-subject"@);
    assert(t[12].id != "classification.unknown-subject"@);
    assert(t[13].id != "classification.unknown-subject"@);
    assert(t[14].id != "classification.unknown-subject"@);
    assert(t[15].id != "classification.unknown-subject"@);
    assert(t[16] == rule_classification_unknown_subject());
    lemma_find_rule_at(t, "classification.unknown-subject"@, 16);
}

/// `cli.usage` finds its own row.
pub proof fn lemma_found_cli_usage()
    ensures
        find_rule(rule_table(), "cli.usage"@) == Some(rule_cli_usage()),
{
    reveal_strlit("adapter.diagnostic-invalid");
    reveal_strlit("classification.conflicting-kind");
    reveal_strlit("classification.custody-ir");
    reveal_strlit("classification.custody-model");
    reveal_strlit("classification.custody-project");
    reveal_strlit("classification.duplicate-subject");
    reveal_strlit("classification.expired-declassification");
    reveal_strlit("classification.invalid-declassification");
    reveal_strlit("classification.kind-rule-missing");
    reveal_strlit("classification.malformed-review-ref");
    reveal_strlit("classification.missing-approval");
    reveal_strlit("classification.policy-missing");
    reveal_strlit("classification.self-approved");
    reveal_strlit("classification.sink-ceiling-exceeded");
    reveal_strlit("classification.unclassified-sensitive-sink");
    reveal_strlit("classification.unknown-kind");
    reveal_strlit("classification.unknown-subject");
    reveal_strlit("cli.usage");
    assert("adapter.diagnostic-invalid"@.len() == 26);
    assert("classification.conflicting-kind"@.len() == 31);
    assert("classification.custody-ir"@.len() == 25);
    assert("classification.custody-model"@.len() == 28);
    assert("classification.custody-project"@.len() == 30);
    assert("classification.duplicate-subject"@.len() == 32);
    assert("classification.expired-declassification"@.len() == 39);
    assert("classification.invalid-declassification"@.len() == 39);
    assert("classification.kind-rule-missing"@.len() == 32);
    assert("classification.malformed-review-ref"@.len() == 35);
    assert("classification.missing-approval"@.len() == 31);
    assert("classification.policy-missing"@.len() == 29);
    assert("classification.self-approved"@.len() == 28);
    assert("classification.sink-ceiling-exceeded"@.len() == 36);
    assert("classification.unclassified-sensitive-sink"@.len() == 42);
    assert("classification.unknown-kind"@.len() == 27);
    assert("classification.unknown-subject"@.len() == 30);
    assert("cli.usage"@.len() == 9);
    let t = rule_table();
    assert(t[0].id != "cli.usage"@);
    assert(t[1].id != "cli.usage"@);
    assert(t[2].id != "cli.usage"@);
    assert(t[3].id != "cli.usage"@);
    assert(t[4].id != "cli.usage"@);
    assert(t[5].id != "cli.usage"@);
    assert(t[6].id != "cli.usage"@);
    assert(t[7].id != "cli.usage"@);
    assert(t[8].id != "cli.usage"@);
    assert(t[9].id != "cli.usage"@);
    assert(t[10].id != "cli.usage"@);
    assert(t[11].id != "cli.usage"@);
    assert(t[12].id != "cli.usage"@);
    assert(t[13].id != "cli.usage"@);
    assert(t[14].id != "cli.usage"@);
    assert(t[15].id != "cli.usage"@);
    assert(t[16].id != "cli.usage"@);
    assert(t[17] == rule_cli_usage());
    lemma_find_rule_at(t, "cli.usage"@, 17);
}

/// `contracted.binding-drift` finds its own row.
pub proof fn lemma_found_contracted_binding_drift()
    ensures
        find_rule(rule_table(), "contracted.binding-drift"@) == Some(rule_contracted_binding_drift()),
{
    reveal_strlit("adapter.diagnostic-invalid");
    reveal_strlit("classification.conflicting-kind");
    reveal_strlit("classification.custody-ir");
    reveal_strlit("classification.custody-model");
    reveal_strlit("classification.custody-project");
    reveal_strlit("classification.duplicate-subject");
    reveal_strlit("classification.expired-declassification");
    reveal_strlit("classification.invalid-declassification");
    reveal_strlit("classification.kind-rule-missing");
    reveal_strlit("classification.malformed-review-ref");
    reveal_strlit("classification.missing-approval");
    reveal_strlit("classification.policy-missing");
    reveal_strlit("classification.self-approved");
    reveal_strlit("classification.sink-ceiling-exceeded");
    reveal_strlit("classification.unclassified-sensitive-sink");
    reveal_strlit("classification.unknown-kind");
    reveal_strlit("classification.unknown-subject");
    reveal_strlit("cli.usage");
    reveal_strlit("contracted.binding-drift");
    assert("adapter.diagnostic-invalid"@.len() == 26);
    assert("classification.conflicting-kind"@.len() == 31);
    assert("classification.custody-ir"@.len() == 25);
    assert("classification.custody-model"@.len() == 28);
    assert("classification.custody-project"@.len() == 30);
    assert("classification.duplicate-subject"@.len() == 32);
    assert("classification.expired-declassification"@.len() == 39);
    assert("classification.invalid-declassification"@.len() == 39);
    assert("classification.kind-rule-missing"@.len() == 32);
    assert("classification.malformed-review-ref"@.len() == 35);
    assert("classification.missing-approval"@.len() == 31);
    assert("classification.policy-missing"@.len() == 29);
    assert("classification.self-approved"@.len() == 28);
    assert("classification.sink-ceiling-exceeded"@.len() == 36);
    assert("classification.unclassified-sensitive-sink"@.len() == 42);
    assert("classification.unknown-kind"@.len() == 27);
    assert("classification.unknown-subject"@.len() == 30);
    assert("cli.usage"@.len() == 9);
    assert("contracted.binding-drift"@.len() == 24);
    let t = rule_table();
    assert(t[0].id != "contracted.binding-drift"@);
    assert(t[1].id != "contracted.binding-drift"@);
    assert(t[2].id != "contracted.binding-drift"@);
    assert(t[3].id != "contracted.binding-drift"@);
    assert(t[4].id != "contracted.binding-drift"@);
    assert(t[5].id != "contracted.binding-drift"@);
    assert(t[6].id != "contracted.binding-drift"@);
    assert(t[7].id != "contracted.binding-drift"@);
    assert(t[8].id != "contracted.binding-drift"@);
    assert(t[9].id != "contracted.binding-drift"@);
    assert(t[10].id != "contracted.binding-drift"@);
    assert(t[11].id != "contracted.binding-drift"@);
    assert(t[12].id != "contracted.binding-drift"@);
    assert(t[13].id != "contracted.binding-drift"@);
    assert(t[14].id != "contracted.binding-drift"@);
    assert(t[15].id != "contracted.binding-drift"@);
    assert(t[16].id != "contracted.binding-drift"@);
    assert(t[17].id != "contracted.binding-drift"@);
    assert(t[18] == rule_contracted_binding_drift());
    lemma_find_rule_at(t, "contracted.binding-drift"@, 18);
}

/// `contracted.coverage-missing` finds its own row.
pub proof fn lemma_found_contracted_coverage_missing()
    ensures
        find_rule(rule_table(), "contracted.coverage-missing"@) == Some(rule_contracted_coverage_missing()),
{
    reveal_strlit("adapter.diagnostic-invalid");
    reveal_strlit("classification.conflicting-kind");
    reveal_strlit("classification.custody-ir");
    reveal_strlit("classification.custody-model");
    reveal_strlit("classification.custody-project");
    reveal_strlit("classification.duplicate-subject");
    reveal_strlit("classification.expired-declassification");
    reveal_strlit("classification.invalid-declassification");
    reveal_strlit("classification.kind-rule-missing");
    reveal_strlit("classification.malformed-review-ref");
    reveal_strlit("classification.missing-approval");
    reveal_strlit("classification.policy-missing");
    reveal_strlit("classification.self-approved");
    reveal_strlit("classification.sink-ceiling-exceeded");
    reveal_strlit("classification.unclassified-sensitive-sink");
    reveal_strlit("classification.unknown-kind");
    reveal_strlit("classification.unknown-subject");
    reveal_strlit("cli.usage");
    reveal_strlit("contracted.binding-drift");
    reveal_strlit("contracted.coverage-missing");
    assert("adapter.diagnostic-invalid"@.len() == 26);
    assert("classification.conflicting-kind"@.len() == 31);
    assert("classification.custody-ir"@.len() == 25);
    assert("classification.custody-model"@.len() == 28);
    assert("classification.custody-project"@.len() == 30);
    assert("classification.duplicate-subject"@.len() == 32);
    assert("classification.expired-declassification"@.len() == 39);
    assert("classification.invalid-declassification"@.len() == 39);
    assert("classification.kind-rule-missing"@.len() == 32);
    assert("classification.malformed-review-ref"@.len() == 35);
    assert("classification.missing-approval"@.len() == 31);
    assert("classification.policy-missing"@.len() == 29);
    assert("classification.self-approved"@.len() == 28);
    assert("classification.sink-ceiling-exceeded"@.len() == 36);
    assert("classification.unclassified-sensitive-sink"@.len() == 42);
    assert("classification.unknown-kind"@.len() == 27);
    assert("classification.unknown-subject"@.len() == 30);
    assert("cli.usage"@.len() == 9);
    assert("contracted.binding-drift"@.len() == 24);
    assert("contracted.coverage-missing"@.len() == 27);
    assert("classification.unknown-kind"@[1] == 'l');
    assert("contracted.coverage-missing"@[1] == 'o');
    let t = rule_table();
    assert(t[0].id != "contracted.coverage-missing"@);
    assert(t[1].id != "contracted.coverage-missing"@);
    assert(t[2].id != "contracted.coverage-missing"@);
    assert(t[3].id != "contracted.coverage-missing"@);
    assert(t[4].id != "contracted.coverage-missing"@);
    assert(t[5].id != "contracted.coverage-missing"@);
    assert(t[6].id != "contracted.coverage-missing"@);
    assert(t[7].id != "contracted.coverage-missing"@);
    assert(t[8].id != "contracted.coverage-missing"@);
    assert(t[9].id != "contracted.coverage-missing"@);
    assert(t[10].id != "contracted.coverage-missing"@);
    assert(t[11].id != "contracted.coverage-missing"@);
    assert(t[12].id != "contracted.coverage-missing"@);
    assert(t[13].id != "contracted.coverage-missing"@);
    assert(t[14].id != "contracted.coverage-missing"@);
    assert(t[15].id != "contracted.coverage-missing"@);
    assert(t[16].id != "contracted.coverage-missing"@);
    assert(t[17].id != "contracted.coverage-missing"@);
    assert(t[18].id != "contracted.coverage-missing"@);
    assert(t[19] == rule_contracted_coverage_missing());
    lemma_find_rule_at(t, "contracted.coverage-missing"@, 19);
}

/// `contracted.declaration-invalid` finds its own row.
pub proof fn lemma_found_contracted_declaration_invalid()
    ensures
        find_rule(rule_table(), "contracted.declaration-invalid"@) == Some(rule_contracted_declaration_invalid()),
{
    reveal_strlit("adapter.diagnostic-invalid");
    reveal_strlit("classification.conflicting-kind");
    reveal_strlit("classification.custody-ir");
    reveal_strlit("classification.custody-model");
    reveal_strlit("classification.custody-project");
    reveal_strlit("classification.duplicate-subject");
    reveal_strlit("classification.expired-declassification");
    reveal_strlit("classification.invalid-declassification");
    reveal_strlit("classification.kind-rule-missing");
    reveal_strlit("classification.malformed-review-ref");
    reveal_strlit("classification.missing-approval");
    reveal_strlit("classification.policy-missing");
    reveal_strlit("classification.self-approved");
    reveal_strlit("classification.sink-ceiling-exceeded");
    reveal_strlit("classification.unclassified-sensitive-sink");
    reveal_strlit("classification.unknown-kind");
    reveal_strlit("classification.unknown-subject");
    reveal_strlit("cli.usage");
    reveal_strlit("contracted.binding-drift");
    reveal_strlit("contracted.coverage-missing");
    reveal_strlit("contracted.declaration-invalid");
    assert("adapter.diagnostic-invalid"@.len() == 26);
    assert("classification.conflicting-kind"@.len() == 31);
    assert("classification.custody-ir"@.len() == 25);
    assert("classification.custody-model"@.len() == 28);
    assert("classification.custody-project"@.len() == 30);
    assert("classification.duplicate-subject"@.len() == 32);
    assert("classification.expired-declassification"@.len() == 39);
    assert("classification.invalid-declassification"@.len() == 39);
    assert("classification.kind-rule-missing"@.len() == 32);
    assert("classification.malformed-review-ref"@.len() == 35);
    assert("classification.missing-approval"@.len() == 31);
    assert("classification.policy-missing"@.len() == 29);
    assert("classification.self-approved"@.len() == 28);
    assert("classification.sink-ceiling-exceeded"@.len() == 36);
    assert("classification.unclassified-sensitive-sink"@.len() == 42);
    assert("classification.unknown-kind"@.len() == 27);
    assert("classification.unknown-subject"@.len() == 30);
    assert("cli.usage"@.len() == 9);
    assert("contracted.binding-drift"@.len() == 24);
    assert("contracted.coverage-missing"@.len() == 27);
    assert("contracted.declaration-invalid"@.len() == 30);
    assert("classification.custody-project"@[1] == 'l');
    assert("contracted.declaration-invalid"@[1] == 'o');
    assert("classification.unknown-subject"@[1] == 'l');
    assert("contracted.declaration-invalid"@[1] == 'o');
    let t = rule_table();
    assert(t[0].id != "contracted.declaration-invalid"@);
    assert(t[1].id != "contracted.declaration-invalid"@);
    assert(t[2].id != "contracted.declaration-invalid"@);
    assert(t[3].id != "contracted.declaration-invalid"@);
    assert(t[4].id != "contracted.declaration-invalid"@);
    assert(t[5].id != "contracted.declaration-invalid"@);
    assert(t[6].id != "contracted.declaration-invalid"@);
    assert(t[7].id != "contracted.declaration-invalid"@);
    assert(t[8].id != "contracted.declaration-invalid"@);
    assert(t[9].id != "contracted.declaration-invalid"@);
    assert(t[10].id != "contracted.declaration-invalid"@);
    assert(t[11].id != "contracted.declaration-invalid"@);
    assert(t[12].id != "contracted.declaration-invalid"@);
    assert(t[13].id != "contracted.declaration-invalid"@);
    assert(t[14].id != "contracted.declaration-invalid"@);
    assert(t[15].id != "contracted.declaration-invalid"@);
    assert(t[16].id != "contracted.declaration-invalid"@);
    assert(t[17].id != "contracted.declaration-invalid"@);
    assert(t[18].id != "contracted.declaration-invalid"@);
    assert(t[19].id != "contracted.declaration-invalid"@);
    assert(t[20] == rule_contracted_declaration_invalid());
    lemma_find_rule_at(t, "contracted.declaration-invalid"@, 20);
}

/// `contracted.declaration-limit` finds its own row.
pub proof fn lemma_found_contracted_declaration_limit()
    ensures
        find_rule(rule_table(), "contracted.declaration-limit"@) == Some(rule_contracted_declaration_limit()),
{
    reveal_strlit("adapter.diagnostic-invalid");
    reveal_strlit("classification.conflicting-kind");
    reveal_strlit("classification.custody-ir");
    reveal_strlit("classification.custody-model");
    reveal_strlit("classification.custody-project");
    reveal_strlit("classification.duplicate-subject");
    reveal_strlit("classification.expired-declassification");
    reveal_strlit("classification.invalid-declassification");
    reveal_strlit("classification.kind-rule-missing");
    reveal_strlit("classification.malformed-review-ref");
    reveal_strlit("classification.missing-approval");
    reveal_strlit("classification.policy-missing");
    reveal_strlit("classification.self-approved");
    reveal_strlit("classification.sink-ceiling-exceeded");
    reveal_strlit("classification.unclassified-sensitive-sink");
    reveal_strlit("classification.unknown-kind");
    reveal_strlit("classification.unknown-subject");
    reveal_strlit("cli.usage");
    reveal_strlit("contracted.binding-drift");
    reveal_strlit("contracted.coverage-missing");
    reveal_strlit("contracted.declaration-invalid");
    reveal_strlit("contracted.declaration-limit");
    assert("adapter.diagnostic-invalid"@.len() == 26);
    assert("classification.conflicting-kind"@.len() == 31);
    assert("classification.custody-ir"@.len() == 25);
    assert("classification.custody-model"@.len() == 28);
    assert("classification.custody-project"@.len() == 30);
    assert("classification.duplicate-subject"@.len() == 32);
    assert("classification.expired-declassification"@.len() == 39);
    assert("classification.invalid-declassification"@.len() == 39);
    assert("classification.kind-rule-missing"@.len() == 32);
    assert("classification.malformed-review-ref"@.len() == 35);
    assert("classification.missing-approval"@.len() == 31);
    assert("classification.policy-missing"@.len() == 29);
    assert("classification.self-approved"@.len() == 28);
    assert("classification.sink-ceiling-exceeded"@.len() == 36);
    assert("classification.unclassified-sensitive-sink"@.len() == 42);
    assert("classification.unknown-kind"@.len() == 27);
    assert("classification.unknown-subject"@.len() == 30);
    assert("cli.usage"@.len() == 9);
    assert("contracted.binding-drift"@.len() == 24);
    assert("contracted.coverage-missing"@.len() == 27);
    assert("contracted.declaration-invalid"@.len() == 30);
    assert("contracted.declaration-limit"@.len() == 28);
    assert("classification.custody-model"@[1] == 'l');
    assert("contracted.declaration-limit"@[1] == 'o');
    assert("classification.self-approved"@[1] == 'l');
    assert("contracted.declaration-limit"@[1] == 'o');
    let t = rule_table();
    assert(t[0].id != "contracted.declaration-limit"@);
    assert(t[1].id != "contracted.declaration-limit"@);
    assert(t[2].id != "contracted.declaration-limit"@);
    assert(t[3].id != "contracted.declaration-limit"@);
    assert(t[4].id != "contracted.declaration-limit"@);
    assert(t[5].id != "contracted.declaration-limit"@);
    assert(t[6].id != "contracted.declaration-limit"@);
    assert(t[7].id != "contracted.declaration-limit"@);
    assert(t[8].id != "contracted.declaration-limit"@);
    assert(t[9].id != "contracted.declaration-limit"@);
    assert(t[10].id != "contracted.declaration-limit"@);
    assert(t[11].id != "contracted.declaration-limit"@);
    assert(t[12].id != "contracted.declaration-limit"@);
    assert(t[13].id != "contracted.declaration-limit"@);
    assert(t[14].id != "contracted.declaration-limit"@);
    assert(t[15].id != "contracted.declaration-limit"@);
    assert(t[16].id != "contracted.declaration-limit"@);
    assert(t[17].id != "contracted.declaration-limit"@);
    assert(t[18].id != "contracted.declaration-limit"@);
    assert(t[19].id != "contracted.declaration-limit"@);
    assert(t[20].id != "contracted.declaration-limit"@);
    assert(t[21] == rule_contracted_declaration_limit());
    lemma_find_rule_at(t, "contracted.declaration-limit"@, 21);
}

/// `contracted.registry-io` finds its own row.
pub proof fn lemma_found_contracted_registry_io()
    ensures
        find_rule(rule_table(), "contracted.registry-io"@) == Some(rule_contracted_registry_io()),
{
    reveal_strlit("adapter.diagnostic-invalid");
    reveal_strlit("classification.conflicting-kind");
    reveal_strlit("classification.custody-ir");
    reveal_strlit("classification.custody-model");
    reveal_strlit("classification.custody-project");
    reveal_strlit("classification.duplicate-subject");
    reveal_strlit("classification.expired-declassification");
    reveal_strlit("classification.invalid-declassification");
    reveal_strlit("classification.kind-rule-missing");
    reveal_strlit("classification.malformed-review-ref");
    reveal_strlit("classification.missing-approval");
    reveal_strlit("classification.policy-missing");
    reveal_strlit("classification.self-approved");
    reveal_strlit("classification.sink-ceiling-exceeded");
    reveal_strlit("classification.unclassified-sensitive-sink");
    reveal_strlit("classification.unknown-kind");
    reveal_strlit("classification.unknown-subject");
    reveal_strlit("cli.usage");
    reveal_strlit("contracted.binding-drift");
    reveal_strlit("contracted.coverage-missing");
    reveal_strlit("contracted.declaration-invalid");
    reveal_strlit("contracted.declaration-limit");
    reveal_strlit("contracted.registry-io");
    assert("adapter.diagnostic-invalid"@.len() == 26);
    assert("classification.conflicting-kind"@.len() == 31);
    assert("classification.custody-ir"@.len() == 25);
    assert("classification.custody-model"@.len() == 28);
    assert("classification.custody-project"@.len() == 30);
    assert("classification.duplicate-subject"@.len() == 32);
    assert("classification.expired-declassification"@.len() == 39);
    assert("classification.invalid-declassification"@.len() == 39);
    assert("classification.kind-rule-missing"@.len() == 32);
    assert("classification.malformed-review-ref"@.len() == 35);
    assert("classification.missing-approval"@.len() == 31);
    assert("classification.policy-missing"@.len() == 29);
    assert("classification.self-approved"@.len() == 28);
    assert("classification.sink-ceiling-exceeded"@.len() == 36);
    assert("classification.unclassified-sensitive-sink"@.len() == 42);
    assert("classification.unknown-kind"@.len() == 27);
    assert("classification.unknown-subject"@.len() == 30);
    assert("cli.usage"@.len() == 9);
    assert("contracted.binding-drift"@.len() == 24);
    assert("contracted.coverage-missing"@.len() == 27);
    assert("contracted.declaration-invalid"@.len() == 30);
    assert("contracted.declaration-limit"@.len() == 28);
    assert("contracted.registry-io"@.len() == 22);
    let t = rule_table();
    assert(t[0].id != "contracted.registry-io"@);
    assert(t[1].id != "contracted.registry-io"@);
    assert(t[2].id != "contracted.registry-io"@);
    assert(t[3].id != "contracted.registry-io"@);
    assert(t[4].id != "contracted.registry-io"@);
    assert(t[5].id != "contracted.registry-io"@);
    assert(t[6].id != "contracted.registry-io"@);
    assert(t[7].id != "contracted.registry-io"@);
    assert(t[8].id != "contracted.registry-io"@);
    assert(t[9].id != "contracted.registry-io"@);
    assert(t[10].id != "contracted.registry-io"@);
    assert(t[11].id != "contracted.registry-io"@);
    assert(t[12].id != "contracted.registry-io"@);
    assert(t[13].id != "contracted.registry-io"@);
    assert(t[14].id != "contracted.registry-io"@);
    assert(t[15].id != "contracted.registry-io"@);
    assert(t[16].id != "contracted.registry-io"@);
    assert(t[17].id != "contracted.registry-io"@);
    assert(t[18].id != "contracted.registry-io"@);
    assert(t[19].id != "contracted.registry-io"@);
    assert(t[20].id != "contracted.registry-io"@);
    assert(t[21].id != "contracted.registry-io"@);
    assert(t[22] == rule_contracted_registry_io());
    lemma_find_rule_at(t, "contracted.registry-io"@, 22);
}

/// `contracted.stale-artifact` finds its own row.
pub proof fn lemma_found_contracted_stale_artifact()
    ensures
        find_rule(rule_table(), "contracted.stale-artifact"@) == Some(rule_contracted_stale_artifact()),
{
    reveal_strlit("adapter.diagnostic-invalid");
    reveal_strlit("classification.conflicting-kind");
    reveal_strlit("classification.custody-ir");
    reveal_strlit("classification.custody-model");
    reveal_strlit("classification.custody-project");
    reveal_strlit("classification.duplicate-subject");
    reveal_strlit("classification.expired-declassification");
    reveal_strlit("classification.invalid-declassification");
    reveal_strlit("classification.kind-rule-missing");
    reveal_strlit("classification.malformed-review-ref");
    reveal_strlit("classification.missing-approval");
    reveal_strlit("classification.policy-missing");
    reveal_strlit("classification.self-approved");
    reveal_strlit("classification.sink-ceiling-exceeded");
    reveal_strlit("classification.unclassified-sensitive-sink");
    reveal_strlit("classification.unknown-kind");
    reveal_strlit("classification.unknown-subject");
    reveal_strlit("cli.usage");
    reveal_strlit("contracted.binding-drift");
    reveal_strlit("contracted.coverage-missing");
    reveal_strlit("contracted.declaration-invalid");
    reveal_strlit("contracted.declaration-limit");
    reveal_strlit("contracted.registry-io");
    reveal_strlit("contracted.stale-artifact");
    assert("adapter.diagnostic-invalid"@.len() == 26);
    assert("classification.conflicting-kind"@.len() == 31);
    assert("classification.custody-ir"@.len() == 25);
    assert("classification.custody-model"@.len() == 28);
    assert("classification.custody-project"@.len() == 30);
    assert("classification.duplicate-subject"@.len() == 32);
    assert("classification.expired-declassification"@.len() == 39);
    assert("classification.invalid-declassification"@.len() == 39);
    assert("classification.kind-rule-missing"@.len() == 32);
    assert("classification.malformed-review-ref"@.len() == 35);
    assert("classification.missing-approval"@.len() == 31);
    assert("classification.policy-missing"@.len() == 29);
    assert("classification.self-approved"@.len() == 28);
    assert("classification.sink-ceiling-exceeded"@.len() == 36);
    assert("classification.unclassified-sensitive-sink"@.len() == 42);
    assert("classification.unknown-kind"@.len() == 27);
    assert("classification.unknown-subject"@.len() == 30);
    assert("cli.usage"@.len() == 9);
    assert("contracted.binding-drift"@.len() == 24);
    assert("contracted.coverage-missing"@.len() == 27);
    assert("contracted.declaration-invalid"@.len() == 30);
    assert("contracted.declaration-limit"@.len() == 28);
    assert("contracted.registry-io"@.len() == 22);
    assert("contracted.stale-artifact"@.len() == 25);
    assert("classification.custody-ir"@[1] == 'l');
    assert("contracted.stale-artifact"@[1] == 'o');
    let t = rule_table();
    assert(t[0].id != "contracted.stale-artifact"@);
    assert(t[1].id != "contracted.stale-artifact"@);
    assert(t[2].id != "contracted.stale-artifact"@);
    assert(t[3].id != "contracted.stale-artifact"@);
    assert(t[4].id != "contracted.stale-artifact"@);
    assert(t[5].id != "contracted.stale-artifact"@);
    assert(t[6].id != "contracted.stale-artifact"@);
    assert(t[7].id != "contracted.stale-artifact"@);
    assert(t[8].id != "contracted.stale-artifact"@);
    assert(t[9].id != "contracted.stale-artifact"@);
    assert(t[10].id != "contracted.stale-artifact"@);
    assert(t[11].id != "contracted.stale-artifact"@);
    assert(t[12].id != "contracted.stale-artifact"@);
    assert(t[13].id != "contracted.stale-artifact"@);
    assert(t[14].id != "contracted.stale-artifact"@);
    assert(t[15].id != "contracted.stale-artifact"@);
    assert(t[16].id != "contracted.stale-artifact"@);
    assert(t[17].id != "contracted.stale-artifact"@);
    assert(t[18].id != "contracted.stale-artifact"@);
    assert(t[19].id != "contracted.stale-artifact"@);
    assert(t[20].id != "contracted.stale-artifact"@);
    assert(t[21].id != "contracted.stale-artifact"@);
    assert(t[22].id != "contracted.stale-artifact"@);
    assert(t[23] == rule_contracted_stale_artifact());
    lemma_find_rule_at(t, "contracted.stale-artifact"@, 23);
}

/// `contracted.unknown-module` finds its own row.
pub proof fn lemma_found_contracted_unknown_module()
    ensures
        find_rule(rule_table(), "contracted.unknown-module"@) == Some(rule_contracted_unknown_module()),
{
    reveal_strlit("adapter.diagnostic-invalid");
    reveal_strlit("classification.conflicting-kind");
    reveal_strlit("classification.custody-ir");
    reveal_strlit("classification.custody-model");
    reveal_strlit("classification.custody-project");
    reveal_strlit("classification.duplicate-subject");
    reveal_strlit("classification.expired-declassification");
    reveal_strlit("classification.invalid-declassification");
    reveal_strlit("classification.kind-rule-missing");
    reveal_strlit("classification.malformed-review-ref");
    reveal_strlit("classification.missing-approval");
    reveal_strlit("classification.policy-missing");
    reveal_strlit("classification.self-approved");
    reveal_strlit("classification.sink-ceiling-exceeded");
    reveal_strlit("classification.unclassified-sensitive-sink");
    reveal_strlit("classification.unknown-kind");
    reveal_strlit("classification.unknown-subject");
    reveal_strlit("cli.usage");
    reveal_strlit("contracted.binding-drift");
    reveal_strlit("contracted.coverage-missing");
    reveal_strlit("contracted.declaration-invalid");
    reveal_strlit("contracted.declaration-limit");
    reveal_strlit("contracted.registry-io");
    reveal_strlit("contracted.stale-artifact");
    reveal_strlit("contracted.unknown-module");
    assert("adapter.diagnostic-invalid"@.len() == 26);
    assert("classification.conflicting-kind"@.len() == 31);
    assert("classification.custody-ir"@.len() == 25);
    assert("classification.custody-model"@.len() == 28);
    assert("classification.custody-project"@.len() == 30);
    assert("classification.duplicate-subject"@.len() == 32);
    assert("classification.expired-declassification"@.len() == 39);
    assert("classification.invalid-declassification"@.len() == 39);
    assert("classification.kind-rule-missing"@.len() == 32);
    assert("classification.malformed-review-ref"@.len() == 35);
    assert("classification.missing-approval"@.len() == 31);
    assert("classification.policy-missing"@.len() == 29);
    assert("classification.self-approved"@.len() == 28);
    assert("classification.sink-ceiling-exceeded"@.len() == 36);
    assert("classification.unclassified-sensitive-sink"@.len() == 42);
    assert("classification.unknown-kind"@.len() == 27);
    assert("classification.unknown-subject"@.len() == 30);
    assert("cli.usage"@.len() == 9);
    assert("contracted.binding-drift"@.len() == 24);
    assert("contracted.coverage-missing"@.len() == 27);
    assert("contracted.declaration-invalid"@.len() == 30);
    assert("contracted.declaration-limit"@.len() == 28);
    assert("contracted.registry-io"@.len() == 22);
    assert("contracted.stale-artifact"@.len() == 25);
    assert("contracted.unknown-module"@.len() == 25);
    assert("classification.custody-ir"@[1] == 'l');
    assert("contracted.unknown-module"@[1] == 'o');
    assert("contracted.stale-artifact"@[11] == 's');
    assert("contracted.unknown-module"@[11] == 'u');
    let t = rule_table();
    assert(t[0].id != "contracted.unknown-module"@);
    assert(t[1].id != "contracted.unknown-module"@);
    assert(t[2].id != "contracted.unknown-module"@);
    assert(t[3].id != "contracted.unknown-module"@);
    assert(t[4].id != "contracted.unknown-module"@);
    assert(t[5].id != "contracted.unknown-module"@);
    assert(t[6].id != "contracted.unknown-module"@);
    assert(t[7].id != "contracted.unknown-module"@);
    assert(t[8].id != "contracted.unknown-module"@);
    assert(t[9].id != "contracted.unknown-module"@);
    assert(t[10].id != "contracted.unknown-module"@);
    assert(t[11].id != "contracted.unknown-module"@);
    assert(t[12].id != "contracted.unknown-module"@);
    assert(t[13].id != "contracted.unknown-module"@);
    assert(t[14].id != "contracted.unknown-module"@);
    assert(t[15].id != "contracted.unknown-module"@);
    assert(t[16].id != "contracted.unknown-module"@);
    assert(t[17].id != "contracted.unknown-module"@);
    assert(t[18].id != "contracted.unknown-module"@);
    assert(t[19].id != "contracted.unknown-module"@);
    assert(t[20].id != "contracted.unknown-module"@);
    assert(t[21].id != "contracted.unknown-module"@);
    assert(t[22].id != "contracted.unknown-module"@);
    assert(t[23].id != "contracted.unknown-module"@);
    assert(t[24] == rule_contracted_unknown_module());
    lemma_find_rule_at(t, "contracted.unknown-module"@, 24);
}

/// `contracted.unknown-symbol` finds its own row.
pub proof fn lemma_found_contracted_unknown_symbol()
    ensures
        find_rule(rule_table(), "contracted.unknown-symbol"@) == Some(rule_contracted_unknown_symbol()),
{
    reveal_strlit("adapter.diagnostic-invalid");
    reveal_strlit("classification.conflicting-kind");
    reveal_strlit("classification.custody-ir");
    reveal_strlit("classification.custody-model");
    reveal_strlit("classification.custody-project");
    reveal_strlit("classification.duplicate-subject");
    reveal_strlit("classification.expired-declassification");
    reveal_strlit("classification.invalid-declassification");
    reveal_strlit("classification.kind-rule-missing");
    reveal_strlit("classification.malformed-review-ref");
    reveal_strlit("classification.missing-approval");
    reveal_strlit("classification.policy-missing");
    reveal_strlit("classification.self-approved");
    reveal_strlit("classification.sink-ceiling-exceeded");
    reveal_strlit("classification.unclassified-sensitive-sink");
    reveal_strlit("classification.unknown-kind");
    reveal_strlit("classification.unknown-subject");
    reveal_strlit("cli.usage");
    reveal_strlit("contracted.binding-drift");
    reveal_strlit("contracted.coverage-missing");
    reveal_strlit("contracted.declaration-invalid");
    reveal_strlit("contracted.declaration-limit");
    reveal_strlit("contracted.registry-io");
    reveal_strlit("contracted.stale-artifact");
    reveal_strlit("contracted.unknown-module");
    reveal_strlit("contracted.unknown-symbol");
    assert("adapter.diagnostic-invalid"@.len() == 26);
    assert("classification.conflicting-kind"@.len() == 31);
    assert("classification.custody-ir"@.len() == 25);
    assert("classification.custody-model"@.len() == 28);
    assert("classification.custody-project"@.len() == 30);
    assert("classification.duplicate-subject"@.len() == 32);
    assert("classification.expired-declassification"@.len() == 39);
    assert("classification.invalid-declassification"@.len() == 39);
    assert("classification.kind-rule-missing"@.len() == 32);
    assert("classification.malformed-review-ref"@.len() == 35);
    assert("classification.missing-approval"@.len() == 31);
    assert("classification.policy-missing"@.len() == 29);
    assert("classification.self-approved"@.len() == 28);
    assert("classification.sink-ceiling-exceeded"@.len() == 36);
    assert("classification.unclassified-sensitive-sink"@.len() == 42);
    assert("classification.unknown-kind"@.len() == 27);
    assert("classification.unknown-subject"@.len() == 30);
    assert("cli.usage"@.len() == 9);
    assert("contracted.binding-drift"@.len() == 24);
    assert("contracted.coverage-missing"@.len() == 27);
    assert("contracted.declaration-invalid"@.len() == 30);
    assert("contracted.declaration-limit"@.len() == 28);
    assert("contracted.registry-io"@.len() == 22);
    assert("contracted.stale-artifact"@.len() == 25);
    assert("contracted.unknown-module"@.len() == 25);
    assert("contracted.unknown-symbol"@.len() == 25);
    assert("classification.custody-ir"@[1] == 'l');
    assert("contracted.unknown-symbol"@[1] == 'o');
    assert("contracted.stale-artifact"@[11] == 's');
    assert("contracted.unknown-symbol"@[11] == 'u');
    assert("contracted.unknown-module"@[19] == 'm');
    assert("contracted.unknown-symbol"@[19] == 's');
    let t = rule_table();
    assert(t[0].id != "contracted.unknown-symbol"@);
    assert(t[1].id != "contracted.unknown-symbol"@);
    assert(t[2].id != "contracted.unknown-symbol"@);
    assert(t[3].id != "contracted.unknown-symbol"@);
    assert(t[4].id != "contracted.unknown-symbol"@);
    assert(t[5].id != "contracted.unknown-symbol"@);
    assert(t[6].id != "contracted.unknown-symbol"@);
    assert(t[7].id != "contracted.unknown-symbol"@);
    assert(t[8].id != "contracted.unknown-symbol"@);
    assert(t[9].id != "contracted.unknown-symbol"@);
    assert(t[10].id != "contracted.unknown-symbol"@);
    assert(t[11].id != "contracted.unknown-symbol"@);
    assert(t[12].id != "contracted.unknown-symbol"@);
    assert(t[13].id != "contracted.unknown-symbol"@);
    assert(t[14].id != "contracted.unknown-symbol"@);
    assert(t[15].id != "contracted.unknown-symbol"@);
    assert(t[16].id != "contracted.unknown-symbol"@);
    assert(t[17].id != "contracted.unknown-symbol"@);
    assert(t[18].id != "contracted.unknown-symbol"@);
    assert(t[19].id != "contracted.unknown-symbol"@);
    assert(t[20].id != "contracted.unknown-symbol"@);
    assert(t[21].id != "contracted.unknown-symbol"@);
    assert(t[22].id != "contracted.unknown-symbol"@);
    assert(t[23].id != "contracted.unknown-symbol"@);
    assert(t[24].id != "contracted.unknown-symbol"@);
    assert(t[25] == rule_contracted_unknown_symbol());
    lemma_find_rule_at(t, "contracted.unknown-symbol"@, 25);
}

/// `dataflow.destination-forbidden` finds its own row.
pub proof fn lemma_found_dataflow_destination_forbidden()
    ensures
        find_rule(rule_table(), "dataflow.destination-forbidden"@) == Some(rule_dataflow_destination_forbidden()),
{
    reveal_strlit("adapter.diagnostic-invalid");
    reveal_strlit("classification.conflicting-kind");
    reveal_strlit("classification.custody-ir");
    reveal_strlit("classification.custody-model");
    reveal_strlit("classification.custody-project");
    reveal_strlit("classification.duplicate-subject");
    reveal_strlit("classification.expired-declassification");
    reveal_strlit("classification.invalid-declassification");
    reveal_strlit("classification.kind-rule-missing");
    reveal_strlit("classification.malformed-review-ref");
    reveal_strlit("classification.missing-approval");
    reveal_strlit("classification.policy-missing");
    reveal_strlit("classification.self-approved");
    reveal_strlit("classification.sink-ceiling-exceeded");
    reveal_strlit("classification.unclassified-sensitive-sink");
    reveal_strlit("classification.unknown-kind");
    reveal_strlit("classification.unknown-subject");
    reveal_strlit("cli.usage");
    reveal_strlit("contracted.binding-drift");
    reveal_strlit("contracted.coverage-missing");
    reveal_strlit("contracted.declaration-invalid");
    reveal_strlit("contracted.declaration-limit");
    reveal_strlit("contracted.registry-io");
    reveal_strlit("contracted.stale-artifact");
    reveal_strlit("contracted.unknown-module");
    reveal_strlit("contracted.unknown-symbol");
    reveal_strlit("dataflow.destination-forbidden");
    assert("adapter.diagnostic-invalid"@.len() == 26);
    assert("classification.conflicting-kind"@.len() == 31);
    assert("classification.custody-ir"@.len() == 25);
    assert("classification.custody-model"@.len() == 28);
    assert("classification.custody-project"@.len() == 30);
    assert("classification.duplicate-subject"@.len() == 32);
    assert("classification.expired-declassification"@.len() == 39);
    assert("classification.invalid-declassification"@.len() == 39);
    assert("classification.kind-rule-missing"@.len() == 32);
    assert("classification.malformed-review-ref"@.len() == 35);
    assert("classification.missing-approval"@.len() == 31);
    assert("classification.policy-missing"@.len() == 29);
    assert("classification.self-approved"@.len() == 28);
    assert("classification.sink-ceiling-exceeded"@.len() == 36);
    assert("classification.unclassified-sensitive-sink"@.len() == 42);
    assert("classification.unknown-kind"@.len() == 27);
    assert("classification.unknown-subject"@.len() == 30);
    assert("cli.usage"@.len() == 9);
    assert("contracted.binding-drift"@.len() == 24);
    assert("contracted.coverage-missing"@.len() == 27);
    assert("contracted.declaration-invalid"@.len() == 30);
    assert("contracted.declaration-limit"@.len() == 28);
    assert("contracted.registry-io"@.len() == 22);
    assert("contracted.stale-artifact"@.len() == 25);
    assert("contracted.unknown-module"@.len() == 25);
    assert("contracted.unknown-symbol"@.len() == 25);
    assert("dataflow.destination-forbidden"@.len() == 30);
    assert("classification.custody-project"@[0] == 'c');
    assert("dataflow.destination-forbidden"@[0] == 'd');
    assert("classification.unknown-subject"@[0] == 'c');
    assert("dataflow.destination-forbidden"@[0] == 'd');
    assert("contracted.declaration-invalid"@[0] == 'c');
    assert("dataflow.destination-forbidden"@[0] == 'd');
    let t = rule_table();
    assert(t[0].id != "dataflow.destination-forbidden"@);
    assert(t[1].id != "dataflow.destination-forbidden"@);
    assert(t[2].id != "dataflow.destination-forbidden"@);
    assert(t[3].id != "dataflow.destination-forbidden"@);
    assert(t[4].id != "dataflow.destination-forbidden"@);
    assert(t[5].id != "dataflow.destination-forbidden"@);
    assert(t[6].id != "dataflow.destination-forbidden"@);
    assert(t[7].id != "dataflow.destination-forbidden"@);
    assert(t[8].id != "dataflow.destination-forbidden"@);
    assert(t[9].id != "dataflow.destination-forbidden"@);
    assert(t[10].id != "dataflow.destination-forbidden"@);
    assert(t[11].id != "dataflow.destination-forbidden"@);
    assert(t[12].id != "dataflow.destination-forbidden"@);
    assert(t[13].id != "dataflow.destination-forbidden"@);
    assert(t[14].id != "dataflow.destination-forbidden"@);
    assert(t[15].id != "dataflow.destination-forbidden"@);
    assert(t[16].id != "dataflow.destination-forbidden"@);
    assert(t[17].id != "dataflow.destination-forbidden"@);
    assert(t[18].id != "dataflow.destination-forbidden"@);
    assert(t[19].id != "dataflow.destination-forbidden"@);
    assert(t[20].id != "dataflow.destination-forbidden"@);
    assert(t[21].id != "dataflow.destination-forbidden"@);
    assert(t[22].id != "dataflow.destination-forbidden"@);
    assert(t[23].id != "dataflow.destination-forbidden"@);
    assert(t[24].id != "dataflow.destination-forbidden"@);
    assert(t[25].id != "dataflow.destination-forbidden"@);
    assert(t[26] == rule_dataflow_destination_forbidden());
    lemma_find_rule_at(t, "dataflow.destination-forbidden"@, 26);
}

/// `dataflow.exposed-private-field` finds its own row.
pub proof fn lemma_found_dataflow_exposed_private_field()
    ensures
        find_rule(rule_table(), "dataflow.exposed-private-field"@) == Some(rule_dataflow_exposed_private_field()),
{
    reveal_strlit("adapter.diagnostic-invalid");
    reveal_strlit("classification.conflicting-kind");
    reveal_strlit("classification.custody-ir");
    reveal_strlit("classification.custody-model");
    reveal_strlit("classification.custody-project");
    reveal_strlit("classification.duplicate-subject");
    reveal_strlit("classification.expired-declassification");
    reveal_strlit("classification.invalid-declassification");
    reveal_strlit("classification.kind-rule-missing");
    reveal_strlit("classification.malformed-review-ref");
    reveal_strlit("classification.missing-approval");
    reveal_strlit("classification.policy-missing");
    reveal_strlit("classification.self-approved");
    reveal_strlit("classification.sink-ceiling-exceeded");
    reveal_strlit("classification.unclassified-sensitive-sink");
    reveal_strlit("classification.unknown-kind");
    reveal_strlit("classification.unknown-subject");
    reveal_strlit("cli.usage");
    reveal_strlit("contracted.binding-drift");
    reveal_strlit("contracted.coverage-missing");
    reveal_strlit("contracted.declaration-invalid");
    reveal_strlit("contracted.declaration-limit");
    reveal_strlit("contracted.registry-io");
    reveal_strlit("contracted.stale-artifact");
    reveal_strlit("contracted.unknown-module");
    reveal_strlit("contracted.unknown-symbol");
    reveal_strlit("dataflow.destination-forbidden");
    reveal_strlit("dataflow.exposed-private-field");
    assert("adapter.diagnostic-invalid"@.len() == 26);
    assert("classification.conflicting-kind"@.len() == 31);
    assert("classification.custody-ir"@.len() == 25);
    assert("classification.custody-model"@.len() == 28);
    assert("classification.custody-project"@.len() == 30);
    assert("classification.duplicate-subject"@.len() == 32);
    assert("classification.expired-declassification"@.len() == 39);
    assert("classification.invalid-declassification"@.len() == 39);
    assert("classification.kind-rule-missing"@.len() == 32);
    assert("classification.malformed-review-ref"@.len() == 35);
    assert("classification.missing-approval"@.len() == 31);
    assert("classification.policy-missing"@.len() == 29);
    assert("classification.self-approved"@.len() == 28);
    assert("classification.sink-ceiling-exceeded"@.len() == 36);
    assert("classification.unclassified-sensitive-sink"@.len() == 42);
    assert("classification.unknown-kind"@.len() == 27);
    assert("classification.unknown-subject"@.len() == 30);
    assert("cli.usage"@.len() == 9);
    assert("contracted.binding-drift"@.len() == 24);
    assert("contracted.coverage-missing"@.len() == 27);
    assert("contracted.declaration-invalid"@.len() == 30);
    assert("contracted.declaration-limit"@.len() == 28);
    assert("contracted.registry-io"@.len() == 22);
    assert("contracted.stale-artifact"@.len() == 25);
    assert("contracted.unknown-module"@.len() == 25);
    assert("contracted.unknown-symbol"@.len() == 25);
    assert("dataflow.destination-forbidden"@.len() == 30);
    assert("dataflow.exposed-private-field"@.len() == 30);
    assert("classification.custody-project"@[0] == 'c');
    assert("dataflow.exposed-private-field"@[0] == 'd');
    assert("classification.unknown-subject"@[0] == 'c');
    assert("dataflow.exposed-private-field"@[0] == 'd');
    assert("contracted.declaration-invalid"@[0] == 'c');
    assert("dataflow.exposed-private-field"@[0] == 'd');
    assert("dataflow.destination-forbidden"@[9] == 'd');
    assert("dataflow.exposed-private-field"@[9] == 'e');
    let t = rule_table();
    assert(t[0].id != "dataflow.exposed-private-field"@);
    assert(t[1].id != "dataflow.exposed-private-field"@);
    assert(t[2].id != "dataflow.exposed-private-field"@);
    assert(t[3].id != "dataflow.exposed-private-field"@);
    assert(t[4].id != "dataflow.exposed-private-field"@);
    assert(t[5].id != "dataflow.exposed-private-field"@);
    assert(t[6].id != "dataflow.exposed-private-field"@);
    assert(t[7].id != "dataflow.exposed-private-field"@);
    assert(t[8].id != "dataflow.exposed-private-field"@);
    assert(t[9].id != "dataflow.exposed-private-field"@);
    assert(t[10].id != "dataflow.exposed-private-field"@);
    assert(t[11].id != "dataflow.exposed-private-field"@);
    assert(t[12].id != "dataflow.exposed-private-field"@);
    assert(t[13].id != "dataflow.exposed-private-field"@);
    assert(t[14].id != "dataflow.exposed-private-field"@);
    assert(t[15].id != "dataflow.exposed-private-field"@);
    assert(t[16].id != "dataflow.exposed-private-field"@);
    assert(t[17].id != "dataflow.exposed-private-field"@);
    assert(t[18].id != "dataflow.exposed-private-field"@);
    assert(t[19].id != "dataflow.exposed-private-field"@);
    assert(t[20].id != "dataflow.exposed-private-field"@);
    assert(t[21].id != "dataflow.exposed-private-field"@);
    assert(t[22].id != "dataflow.exposed-private-field"@);
    assert(t[23].id != "dataflow.exposed-private-field"@);
    assert(t[24].id != "dataflow.exposed-private-field"@);
    assert(t[25].id != "dataflow.exposed-private-field"@);
    assert(t[26].id != "dataflow.exposed-private-field"@);
    assert(t[27] == rule_dataflow_exposed_private_field());
    lemma_find_rule_at(t, "dataflow.exposed-private-field"@, 27);
}

/// `dataflow.low-confidence-sensitive` finds its own row.
pub proof fn lemma_found_dataflow_low_confidence_sensitive()
    ensures
        find_rule(rule_table(), "dataflow.low-confidence-sensitive"@) == Some(rule_dataflow_low_confidence_sensitive()),
{
    reveal_strlit("adapter.diagnostic-invalid");
    reveal_strlit("classification.conflicting-kind");
    reveal_strlit("classification.custody-ir");
    reveal_strlit("classification.custody-model");
    reveal_strlit("classification.custody-project");
    reveal_strlit("classification.duplicate-subject");
    reveal_strlit("classification.expired-declassification");
    reveal_strlit("classification.invalid-declassification");
    reveal_strlit("classification.kind-rule-missing");
    reveal_strlit("classification.malformed-review-ref");
    reveal_strlit("classification.missing-approval");
    reveal_strlit("classification.policy-missing");
    reveal_strlit("classification.self-approved");
    reveal_strlit("classification.sink-ceiling-exceeded");
    reveal_strlit("classification.unclassified-sensitive-sink");
    reveal_strlit("classification.unknown-kind");
    reveal_strlit("classification.unknown-subject");
    reveal_strlit("cli.usage");
    reveal_strlit("contracted.binding-drift");
    reveal_strlit("contracted.coverage-missing");
    reveal_strlit("contracted.declaration-invalid");
    reveal_strlit("contracted.declaration-limit");
    reveal_strlit("contracted.registry-io");
    reveal_strlit("contracted.stale-artifact");
    reveal_strlit("contracted.unknown-module");
    reveal_strlit("contracted.unknown-symbol");
    reveal_strlit("dataflow.destination-forbidden");
    reveal_strlit("dataflow.exposed-private-field");
    reveal_strlit("dataflow.low-confidence-sensitive");
    assert("adapter.diagnostic-invalid"@.len() == 26);
    assert("classification.conflicting-kind"@.len() == 31);
    assert("classification.custody-ir"@.len() == 25);
    assert("classification.custody-model"@.len() == 28);
    assert("classification.custody-project"@.len() == 30);
    assert("classification.duplicate-subject"@.len() == 32);
    assert("classification.expired-declassification"@.len() == 39);
    assert("classification.invalid-declassification"@.len() == 39);
    assert("classification.kind-rule-missing"@.len() == 32);
    assert("classification.malformed-review-ref"@.len() == 35);
    assert("classification.missing-approval"@.len() == 31);
    assert("classification.policy-missing"@.len() == 29);
    assert("classification.self-approved"@.len() == 28);
    assert("classification.sink-ceiling-exceeded"@.len() == 36);
    assert("classification.unclassified-sensitive-sink"@.len() == 42);
    assert("classification.unknown-kind"@.len() == 27);
    assert("classification.unknown-subject"@.len() == 30);
    assert("cli.usage"@.len() == 9);
    assert("contracted.binding-drift"@.len() == 24);
    assert("contracted.coverage-missing"@.len() == 27);
    assert("contracted.declaration-invalid"@.len() == 30);
    assert("contracted.declaration-limit"@.len() == 28);
    assert("contracted.registry-io"@.len() == 22);
    assert("contracted.stale-artifact"@.len() == 25);
    assert("contracted.unknown-module"@.len() == 25);
    assert("contracted.unknown-symbol"@.len() == 25);
    assert("dataflow.destination-forbidden"@.len() == 30);
    assert("dataflow.exposed-private-field"@.len() == 30);
    assert("dataflow.low-confidence-sensitive"@.len() == 33);
    let t = rule_table();
    assert(t[0].id != "dataflow.low-confidence-sensitive"@);
    assert(t[1].id != "dataflow.low-confidence-sensitive"@);
    assert(t[2].id != "dataflow.low-confidence-sensitive"@);
    assert(t[3].id != "dataflow.low-confidence-sensitive"@);
    assert(t[4].id != "dataflow.low-confidence-sensitive"@);
    assert(t[5].id != "dataflow.low-confidence-sensitive"@);
    assert(t[6].id != "dataflow.low-confidence-sensitive"@);
    assert(t[7].id != "dataflow.low-confidence-sensitive"@);
    assert(t[8].id != "dataflow.low-confidence-sensitive"@);
    assert(t[9].id != "dataflow.low-confidence-sensitive"@);
    assert(t[10].id != "dataflow.low-confidence-sensitive"@);
    assert(t[11].id != "dataflow.low-confidence-sensitive"@);
    assert(t[12].id != "dataflow.low-confidence-sensitive"@);
    assert(t[13].id != "dataflow.low-confidence-sensitive"@);
    assert(t[14].id != "dataflow.low-confidence-sensitive"@);
    assert(t[15].id != "dataflow.low-confidence-sensitive"@);
    assert(t[16].id != "dataflow.low-confidence-sensitive"@);
    assert(t[17].id != "dataflow.low-confidence-sensitive"@);
    assert(t[18].id != "dataflow.low-confidence-sensitive"@);
    assert(t[19].id != "dataflow.low-confidence-sensitive"@);
    assert(t[20].id != "dataflow.low-confidence-sensitive"@);
    assert(t[21].id != "dataflow.low-confidence-sensitive"@);
    assert(t[22].id != "dataflow.low-confidence-sensitive"@);
    assert(t[23].id != "dataflow.low-confidence-sensitive"@);
    assert(t[24].id != "dataflow.low-confidence-sensitive"@);
    assert(t[25].id != "dataflow.low-confidence-sensitive"@);
    assert(t[26].id != "dataflow.low-confidence-sensitive"@);
    assert(t[27].id != "dataflow.low-confidence-sensitive"@);
    assert(t[28] == rule_dataflow_low_confidence_sensitive());
    lemma_find_rule_at(t, "dataflow.low-confidence-sensitive"@, 28);
}

/// `dataflow.missing-approval` finds its own row.
pub proof fn lemma_found_dataflow_missing_approval()
    ensures
        find_rule(rule_table(), "dataflow.missing-approval"@) == Some(rule_dataflow_missing_approval()),
{
    reveal_strlit("adapter.diagnostic-invalid");
    reveal_strlit("classification.conflicting-kind");
    reveal_strlit("classification.custody-ir");
    reveal_strlit("classification.custody-model");
    reveal_strlit("classification.custody-project");
    reveal_strlit("classification.duplicate-subject");
    reveal_strlit("classification.expired-declassification");
    reveal_strlit("classification.invalid-declassification");
    reveal_strlit("classification.kind-rule-missing");
    reveal_strlit("classification.malformed-review-ref");
    reveal_strlit("classification.missing-approval");
    reveal_strlit("classification.policy-missing");
    reveal_strlit("classification.self-approved");
    reveal_strlit("classification.sink-ceiling-exceeded");
    reveal_strlit("classification.unclassified-sensitive-sink");
    reveal_strlit("classification.unknown-kind");
    reveal_strlit("classification.unknown-subject");
    reveal_strlit("cli.usage");
    reveal_strlit("contracted.binding-drift");
    reveal_strlit("contracted.coverage-missing");
    reveal_strlit("contracted.declaration-invalid");
    reveal_strlit("contracted.declaration-limit");
    reveal_strlit("contracted.registry-io");
    reveal_strlit("contracted.stale-artifact");
    reveal_strlit("contracted.unknown-module");
    reveal_strlit("contracted.unknown-symbol");
    reveal_strlit("dataflow.destination-forbidden");
    reveal_strlit("dataflow.exposed-private-field");
    reveal_strlit("dataflow.low-confidence-sensitive");
    reveal_strlit("dataflow.missing-approval");
    assert("adapter.diagnostic-invalid"@.len() == 26);
    assert("classification.conflicting-kind"@.len() == 31);
    assert("classification.custody-ir"@.len() == 25);
    assert("classification.custody-model"@.len() == 28);
    assert("classification.custody-project"@.len() == 30);
    assert("classification.duplicate-subject"@.len() == 32);
    assert("classification.expired-declassification"@.len() == 39);
    assert("classification.invalid-declassification"@.len() == 39);
    assert("classification.kind-rule-missing"@.len() == 32);
    assert("classification.malformed-review-ref"@.len() == 35);
    assert("classification.missing-approval"@.len() == 31);
    assert("classification.policy-missing"@.len() == 29);
    assert("classification.self-approved"@.len() == 28);
    assert("classification.sink-ceiling-exceeded"@.len() == 36);
    assert("classification.unclassified-sensitive-sink"@.len() == 42);
    assert("classification.unknown-kind"@.len() == 27);
    assert("classification.unknown-subject"@.len() == 30);
    assert("cli.usage"@.len() == 9);
    assert("contracted.binding-drift"@.len() == 24);
    assert("contracted.coverage-missing"@.len() == 27);
    assert("contracted.declaration-invalid"@.len() == 30);
    assert("contracted.declaration-limit"@.len() == 28);
    assert("contracted.registry-io"@.len() == 22);
    assert("contracted.stale-artifact"@.len() == 25);
    assert("contracted.unknown-module"@.len() == 25);
    assert("contracted.unknown-symbol"@.len() == 25);
    assert("dataflow.destination-forbidden"@.len() == 30);
    assert("dataflow.exposed-private-field"@.len() == 30);
    assert("dataflow.low-confidence-sensitive"@.len() == 33);
    assert("dataflow.missing-approval"@.len() == 25);
    assert("classification.custody-ir"@[0] == 'c');
    assert("dataflow.missing-approval"@[0] == 'd');
    assert("contracted.stale-artifact"@[0] == 'c');
    assert("dataflow.missing-approval"@[0] == 'd');
    assert("contracted.unknown-module"@[0] == 'c');
    assert("dataflow.missing-approval"@[0] == 'd');
    assert("contracted.unknown-symbol"@[0] == 'c');
    assert("dataflow.missing-approval"@[0] == 'd');
    let t = rule_table();
    assert(t[0].id != "dataflow.missing-approval"@);
    assert(t[1].id != "dataflow.missing-approval"@);
    assert(t[2].id != "dataflow.missing-approval"@);
    assert(t[3].id != "dataflow.missing-approval"@);
    assert(t[4].id != "dataflow.missing-approval"@);
    assert(t[5].id != "dataflow.missing-approval"@);
    assert(t[6].id != "dataflow.missing-approval"@);
    assert(t[7].id != "dataflow.missing-approval"@);
    assert(t[8].id != "dataflow.missing-approval"@);
    assert(t[9].id != "dataflow.missing-approval"@);
    assert(t[10].id != "dataflow.missing-approval"@);
    assert(t[11].id != "dataflow.missing-approval"@);
    assert(t[12].id != "dataflow.missing-approval"@);
    assert(t[13].id != "dataflow.missing-approval"@);
    assert(t[14].id != "dataflow.missing-approval"@);
    assert(t[15].id != "dataflow.missing-approval"@);
    assert(t[16].id != "dataflow.missing-approval"@);
    assert(t[17].id != "dataflow.missing-approval"@);
    assert(t[18].id != "dataflow.missing-approval"@);
    assert(t[19].id != "dataflow.missing-approval"@);
    assert(t[20].id != "dataflow.missing-approval"@);
    assert(t[21].id != "dataflow.missing-approval"@);
    assert(t[22].id != "dataflow.missing-approval"@);
    assert(t[23].id != "dataflow.missing-approval"@);
    assert(t[24].id != "dataflow.missing-approval"@);
    assert(t[25].id != "dataflow.missing-approval"@);
    assert(t[26].id != "dataflow.missing-approval"@);
    assert(t[27].id != "dataflow.missing-approval"@);
    assert(t[28].id != "dataflow.missing-approval"@);
    assert(t[29] == rule_dataflow_missing_approval());
    lemma_find_rule_at(t, "dataflow.missing-approval"@, 29);
}

/// `dataflow.missing-destination` finds its own row.
pub proof fn lemma_found_dataflow_missing_destination()
    ensures
        find_rule(rule_table(), "dataflow.missing-destination"@) == Some(rule_dataflow_missing_destination()),
{
    reveal_strlit("adapter.diagnostic-invalid");
    reveal_strlit("classification.conflicting-kind");
    reveal_strlit("classification.custody-ir");
    reveal_strlit("classification.custody-model");
    reveal_strlit("classification.custody-project");
    reveal_strlit("classification.duplicate-subject");
    reveal_strlit("classification.expired-declassification");
    reveal_strlit("classification.invalid-declassification");
    reveal_strlit("classification.kind-rule-missing");
    reveal_strlit("classification.malformed-review-ref");
    reveal_strlit("classification.missing-approval");
    reveal_strlit("classification.policy-missing");
    reveal_strlit("classification.self-approved");
    reveal_strlit("classification.sink-ceiling-exceeded");
    reveal_strlit("classification.unclassified-sensitive-sink");
    reveal_strlit("classification.unknown-kind");
    reveal_strlit("classification.unknown-subject");
    reveal_strlit("cli.usage");
    reveal_strlit("contracted.binding-drift");
    reveal_strlit("contracted.coverage-missing");
    reveal_strlit("contracted.declaration-invalid");
    reveal_strlit("contracted.declaration-limit");
    reveal_strlit("contracted.registry-io");
    reveal_strlit("contracted.stale-artifact");
    reveal_strlit("contracted.unknown-module");
    reveal_strlit("contracted.unknown-symbol");
    reveal_strlit("dataflow.destination-forbidden");
    reveal_strlit("dataflow.exposed-private-field");
    reveal_strlit("dataflow.low-confidence-sensitive");
    reveal_strlit("dataflow.missing-approval");
    reveal_strlit("dataflow.missing-destination");
    assert("adapter.diagnostic-invalid"@.len() == 26);
    assert("classification.conflicting-kind"@.len() == 31);
    assert("classification.custody-ir"@.len() == 25);
    assert("classification.custody-model"@.len() == 28);
    assert("classification.custody-project"@.len() == 30);
    assert("classification.duplicate-subject"@.len() == 32);
    assert("classification.expired-declassification"@.len() == 39);
    assert("classification.invalid-declassification"@.len() == 39);
    assert("classification.kind-rule-missing"@.len() == 32);
    assert("classification.malformed-review-ref"@.len() == 35);
    assert("classification.missing-approval"@.len() == 31);
    assert("classification.policy-missing"@.len() == 29);
    assert("classification.self-approved"@.len() == 28);
    assert("classification.sink-ceiling-exceeded"@.len() == 36);
    assert("classification.unclassified-sensitive-sink"@.len() == 42);
    assert("classification.unknown-kind"@.len() == 27);
    assert("classification.unknown-subject"@.len() == 30);
    assert("cli.usage"@.len() == 9);
    assert("contracted.binding-drift"@.len() == 24);
    assert("contracted.coverage-missing"@.len() == 27);
    assert("contracted.declaration-invalid"@.len() == 30);
    assert("contracted.declaration-limit"@.len() == 28);
    assert("contracted.registry-io"@.len() == 22);
    assert("contracted.stale-artifact"@.len() == 25);
    assert("contracted.unknown-module"@.len() == 25);
    assert("contracted.unknown-symbol"@.len() == 25);
    assert("dataflow.destination-forbidden"@.len() == 30);
    assert("dataflow.exposed-private-field"@.len() == 30);
    assert("dataflow.low-confidence-sensitive"@.len() == 33);
    assert("dataflow.missing-approval"@.len() == 25);
    assert("dataflow.missing-destination"@.len() == 28);
    assert("classification.custody-model"@[0] == 'c');
    assert("dataflow.missing-destination"@[0] == 'd');
    assert("classification.self-approved"@[0] == 'c');
    assert("dataflow.missing-destination"@[0] == 'd');
    assert("contracted.declaration-limit"@[0] == 'c');
    assert("dataflow.missing-destination"@[0] == 'd');
    let t = rule_table();
    assert(t[0].id != "dataflow.missing-destination"@);
    assert(t[1].id != "dataflow.missing-destination"@);
    assert(t[2].id != "dataflow.missing-destination"@);
    assert(t[3].id != "dataflow.missing-destination"@);
    assert(t[4].id != "dataflow.missing-destination"@);
    assert(t[5].id != "dataflow.missing-destination"@);
    assert(t[6].id != "dataflow.missing-destination"@);
    assert(t[7].id != "dataflow.missing-destination"@);
    assert(t[8].id != "dataflow.missing-destination"@);
    assert(t[9].id != "dataflow.missing-destination"@);
    assert(t[10].id != "dataflow.missing-destination"@);
    assert(t[11].id != "dataflow.missing-destination"@);
    assert(t[12].id != "dataflow.missing-destination"@);
    assert(t[13].id != "dataflow.missing-destination"@);
    assert(t[14].id != "dataflow.missing-destination"@);
    assert(t[15].id != "dataflow.missing-destination"@);
    assert(t[16].id != "dataflow.missing-destination"@);
    assert(t[17].id != "dataflow.missing-destination"@);
    assert(t[18].id != "dataflow.missing-destination"@);
    assert(t[19].id != "dataflow.missing-destination"@);
    assert(t[20].id != "dataflow.missing-destination"@);
    assert(t[21].id != "dataflow.missing-destination"@);
    assert(t[22].id != "dataflow.missing-destination"@);
    assert(t[23].id != "dataflow.missing-destination"@);
    assert(t[24].id != "dataflow.missing-destination"@);
    assert(t[25].id != "dataflow.missing-destination"@);
    assert(t[26].id != "dataflow.missing-destination"@);
    assert(t[27].id != "dataflow.missing-destination"@);
    assert(t[28].id != "dataflow.missing-destination"@);
    assert(t[29].id != "dataflow.missing-destination"@);
    assert(t[30] == rule_dataflow_missing_destination());
    lemma_find_rule_at(t, "dataflow.missing-destination"@, 30);
}

/// `dataflow.observed-incomplete` finds its own row.
pub proof fn lemma_found_dataflow_observed_incomplete()
    ensures
        find_rule(rule_table(), "dataflow.observed-incomplete"@) == Some(rule_dataflow_observed_incomplete()),
{
    reveal_strlit("adapter.diagnostic-invalid");
    reveal_strlit("classification.conflicting-kind");
    reveal_strlit("classification.custody-ir");
    reveal_strlit("classification.custody-model");
    reveal_strlit("classification.custody-project");
    reveal_strlit("classification.duplicate-subject");
    reveal_strlit("classification.expired-declassification");
    reveal_strlit("classification.invalid-declassification");
    reveal_strlit("classification.kind-rule-missing");
    reveal_strlit("classification.malformed-review-ref");
    reveal_strlit("classification.missing-approval");
    reveal_strlit("classification.policy-missing");
    reveal_strlit("classification.self-approved");
    reveal_strlit("classification.sink-ceiling-exceeded");
    reveal_strlit("classification.unclassified-sensitive-sink");
    reveal_strlit("classification.unknown-kind");
    reveal_strlit("classification.unknown-subject");
    reveal_strlit("cli.usage");
    reveal_strlit("contracted.binding-drift");
    reveal_strlit("contracted.coverage-missing");
    reveal_strlit("contracted.declaration-invalid");
    reveal_strlit("contracted.declaration-limit");
    reveal_strlit("contracted.registry-io");
    reveal_strlit("contracted.stale-artifact");
    reveal_strlit("contracted.unknown-module");
    reveal_strlit("contracted.unknown-symbol");
    reveal_strlit("dataflow.destination-forbidden");
    reveal_strlit("dataflow.exposed-private-field");
    reveal_strlit("dataflow.low-confidence-sensitive");
    reveal_strlit("dataflow.missing-approval");
    reveal_strlit("dataflow.missing-destination");
    reveal_strlit("dataflow.observed-incomplete");
    assert("adapter.diagnostic-invalid"@.len() == 26);
    assert("classification.conflicting-kind"@.len() == 31);
    assert("classification.custody-ir"@.len() == 25);
    assert("classification.custody-model"@.len() == 28);
    assert("classification.custody-project"@.len() == 30);
    assert("classification.duplicate-subject"@.len() == 32);
    assert("classification.expired-declassification"@.len() == 39);
    assert("classification.invalid-declassification"@.len() == 39);
    assert("classification.kind-rule-missing"@.len() == 32);
    assert("classification.malformed-review-ref"@.len() == 35);
    assert("classification.missing-approval"@.len() == 31);
    assert("classification.policy-missing"@.len() == 29);
    assert("classification.self-approved"@.len() == 28);
    assert("classification.sink-ceiling-exceeded"@.len() == 36);
    assert("classification.unclassified-sensitive-sink"@.len() == 42);
    assert("classification.unknown-kind"@.len() == 27);
    assert("classification.unknown-subject"@.len() == 30);
    assert("cli.usage"@.len() == 9);
    assert("contracted.binding-drift"@.len() == 24);
    assert("contracted.coverage-missing"@.len() == 27);
    assert("contracted.declaration-invalid"@.len() == 30);
    assert("contracted.declaration-limit"@.len() == 28);
    assert("contracted.registry-io"@.len() == 22);
    assert("contracted.stale-artifact"@.len() == 25);
    assert("contracted.unknown-module"@.len() == 25);
    assert("contracted.unknown-symbol"@.len() == 25);
    assert("dataflow.destination-forbidden"@.len() == 30);
    assert("dataflow.exposed-private-field"@.len() == 30);
    assert("dataflow.low-confidence-sensitive"@.len() == 33);
    assert("dataflow.missing-approval"@.len() == 25);
    assert("dataflow.missing-destination"@.len() == 28);
    assert("dataflow.observed-incomplete"@.len() == 28);
    assert("classification.custody-model"@[0] == 'c');
    assert("dataflow.observed-incomplete"@[0] == 'd');
    assert("classification.self-approved"@[0] == 'c');
    assert("dataflow.observed-incomplete"@[0] == 'd');
    assert("contracted.declaration-limit"@[0] == 'c');
    assert("dataflow.observed-incomplete"@[0] == 'd');
    assert("dataflow.missing-destination"@[9] == 'm');
    assert("dataflow.observed-incomplete"@[9] == 'o');
    let t = rule_table();
    assert(t[0].id != "dataflow.observed-incomplete"@);
    assert(t[1].id != "dataflow.observed-incomplete"@);
    assert(t[2].id != "dataflow.observed-incomplete"@);
    assert(t[3].id != "dataflow.observed-incomplete"@);
    assert(t[4].id != "dataflow.observed-incomplete"@);
    assert(t[5].id != "dataflow.observed-incomplete"@);
    assert(t[6].id != "dataflow.observed-incomplete"@);
    assert(t[7].id != "dataflow.observed-incomplete"@);
    assert(t[8].id != "dataflow.observed-incomplete"@);
    assert(t[9].id != "dataflow.observed-incomplete"@);
    assert(t[10].id != "dataflow.observed-incomplete"@);
    assert(t[11].id != "dataflow.observed-incomplete"@);
    assert(t[12].id != "dataflow.observed-incomplete"@);
    assert(t[13].id != "dataflow.observed-incomplete"@);
    assert(t[14].id != "dataflow.observed-incomplete"@);
    assert(t[15].id != "dataflow.observed-incomplete"@);
    assert(t[16].id != "dataflow.observed-incomplete"@);
    assert(t[17].id != "dataflow.observed-incomplete"@);
    assert(t[18].id != "dataflow.observed-incomplete"@);
    assert(t[19].id != "dataflow.observed-incomplete"@);
    assert(t[20].id != "dataflow.observed-incomplete"@);
    assert(t[21].id != "dataflow.observed-incomplete"@);
    assert(t[22].id != "dataflow.observed-incomplete"@);
    assert(t[23].id != "dataflow.observed-incomplete"@);
    assert(t[24].id != "dataflow.observed-incomplete"@);
    assert(t[25].id != "dataflow.observed-incomplete"@);
    assert(t[26].id != "dataflow.observed-incomplete"@);
    assert(t[27].id != "dataflow.observed-incomplete"@);
    assert(t[28].id != "dataflow.observed-incomplete"@);
    assert(t[29].id != "dataflow.observed-incomplete"@);
    assert(t[30].id != "dataflow.observed-incomplete"@);
    assert(t[31] == rule_dataflow_observed_incomplete());
    lemma_find_rule_at(t, "dataflow.observed-incomplete"@, 31);
}

/// `dataflow.tenant-crossing` finds its own row.
pub proof fn lemma_found_dataflow_tenant_crossing()
    ensures
        find_rule(rule_table(), "dataflow.tenant-crossing"@) == Some(rule_dataflow_tenant_crossing()),
{
    reveal_strlit("adapter.diagnostic-invalid");
    reveal_strlit("classification.conflicting-kind");
    reveal_strlit("classification.custody-ir");
    reveal_strlit("classification.custody-model");
    reveal_strlit("classification.custody-project");
    reveal_strlit("classification.duplicate-subject");
    reveal_strlit("classification.expired-declassification");
    reveal_strlit("classification.invalid-declassification");
    reveal_strlit("classification.kind-rule-missing");
    reveal_strlit("classification.malformed-review-ref");
    reveal_strlit("classification.missing-approval");
    reveal_strlit("classification.policy-missing");
    reveal_strlit("classification.self-approved");
    reveal_strlit("classification.sink-ceiling-exceeded");
    reveal_strlit("classification.unclassified-sensitive-sink");
    reveal_strlit("classification.unknown-kind");
    reveal_strlit("classification.unknown-subject");
    reveal_strlit("cli.usage");
    reveal_strlit("contracted.binding-drift");
    reveal_strlit("contracted.coverage-missing");
    reveal_strlit("contracted.declaration-invalid");
    reveal_strlit("contracted.declaration-limit");
    reveal_strlit("contracted.registry-io");
    reveal_strlit("contracted.stale-artifact");
    reveal_strlit("contracted.unknown-module");
    reveal_strlit("contracted.unknown-symbol");
    reveal_strlit("dataflow.destination-forbidden");
    reveal_strlit("dataflow.exposed-private-field");
    reveal_strlit("dataflow.low-confidence-sensitive");
    reveal_strlit("dataflow.missing-approval");
    reveal_strlit("dataflow.missing-destination");
    reveal_strlit("dataflow.observed-incomplete");
    reveal_strlit("dataflow.tenant-crossing");
    assert("adapter.diagnostic-invalid"@.len() == 26);
    assert("classification.conflicting-kind"@.len() == 31);
    assert("classification.custody-ir"@.len() == 25);
    assert("classification.custody-model"@.len() == 28);
    assert("classification.custody-project"@.len() == 30);
    assert("classification.duplicate-subject"@.len() == 32);
    assert("classification.expired-declassification"@.len() == 39);
    assert("classification.invalid-declassification"@.len() == 39);
    assert("classification.kind-rule-missing"@.len() == 32);
    assert("classification.malformed-review-ref"@.len() == 35);
    assert("classification.missing-approval"@.len() == 31);
    assert("classification.policy-missing"@.len() == 29);
    assert("classification.self-approved"@.len() == 28);
    assert("classification.sink-ceiling-exceeded"@.len() == 36);
    assert("classification.unclassified-sensitive-sink"@.len() == 42);
    assert("classification.unknown-kind"@.len() == 27);
    assert("classification.unknown-subject"@.len() == 30);
    assert("cli.usage"@.len() == 9);
    assert("contracted.binding-drift"@.len() == 24);
    assert("contracted.coverage-missing"@.len() == 27);
    assert("contracted.declaration-invalid"@.len() == 30);
    assert("contracted.declaration-limit"@.len() == 28);
    assert("contracted.registry-io"@.len() == 22);
    assert("contracted.stale-artifact"@.len() == 25);
    assert("contracted.unknown-module"@.len() == 25);
    assert("contracted.unknown-symbol"@.len() == 25);
    assert("dataflow.destination-forbidden"@.len() == 30);
    assert("dataflow.exposed-private-field"@.len() == 30);
    assert("dataflow.low-confidence-sensitive"@.len() == 33);
    assert("dataflow.missing-approval"@.len() == 25);
    assert("dataflow.missing-destination"@.len() == 28);
    assert("dataflow.observed-incomplete"@.len() == 28);
    assert("dataflow.tenant-crossing"@.len() == 24);
    assert("contracted.binding-drift"@[0] == 'c');
    assert("dataflow.tenant-crossing"@[0] == 'd');
    let t = rule_table();
    assert(t[0].id != "dataflow.tenant-crossing"@);
    assert(t[1].id != "dataflow.tenant-crossing"@);
    assert(t[2].id != "dataflow.tenant-crossing"@);
    assert(t[3].id != "dataflow.tenant-crossing"@);
    assert(t[4].id != "dataflow.tenant-crossing"@);
    assert(t[5].id != "dataflow.tenant-crossing"@);
    assert(t[6].id != "dataflow.tenant-crossing"@);
    assert(t[7].id != "dataflow.tenant-crossing"@);
    assert(t[8].id != "dataflow.tenant-crossing"@);
    assert(t[9].id != "dataflow.tenant-crossing"@);
    assert(t[10].id != "dataflow.tenant-crossing"@);
    assert(t[11].id != "dataflow.tenant-crossing"@);
    assert(t[12].id != "dataflow.tenant-crossing"@);
    assert(t[13].id != "dataflow.tenant-crossing"@);
    assert(t[14].id != "dataflow.tenant-crossing"@);
    assert(t[15].id != "dataflow.tenant-crossing"@);
    assert(t[16].id != "dataflow.tenant-crossing"@);
    assert(t[17].id != "dataflow.tenant-crossing"@);
    assert(t[18].id != "dataflow.tenant-crossing"@);
    assert(t[19].id != "dataflow.tenant-crossing"@);
    assert(t[20].id != "dataflow.tenant-crossing"@);
    assert(t[21].id != "dataflow.tenant-crossing"@);
    assert(t[22].id != "dataflow.tenant-crossing"@);
    assert(t[23].id != "dataflow.tenant-crossing"@);
    assert(t[24].id != "dataflow.tenant-crossing"@);
    assert(t[25].id != "dataflow.tenant-crossing"@);
    assert(t[26].id != "dataflow.tenant-crossing"@);
    assert(t[27].id != "dataflow.tenant-crossing"@);
    assert(t[28].id != "dataflow.tenant-crossing"@);
    assert(t[29].id != "dataflow.tenant-crossing"@);
    assert(t[30].id != "dataflow.tenant-crossing"@);
    assert(t[31].id != "dataflow.tenant-crossing"@);
    assert(t[32] == rule_dataflow_tenant_crossing());
    lemma_find_rule_at(t, "dataflow.tenant-crossing"@, 32);
}

/// `dataflow.unknown-flow` finds its own row.
pub proof fn lemma_found_dataflow_unknown_flow()
    ensures
        find_rule(rule_table(), "dataflow.unknown-flow"@) == Some(rule_dataflow_unknown_flow()),
{
    reveal_strlit("adapter.diagnostic-invalid");
    reveal_strlit("classification.conflicting-kind");
    reveal_strlit("classification.custody-ir");
    reveal_strlit("classification.custody-model");
    reveal_strlit("classification.custody-project");
    reveal_strlit("classification.duplicate-subject");
    reveal_strlit("classification.expired-declassification");
    reveal_strlit("classification.invalid-declassification");
    reveal_strlit("classification.kind-rule-missing");
    reveal_strlit("classification.malformed-review-ref");
    reveal_strlit("classification.missing-approval");
    reveal_strlit("classification.policy-missing");
    reveal_strlit("classification.self-approved");
    reveal_strlit("classification.sink-ceiling-exceeded");
    reveal_strlit("classification.unclassified-sensitive-sink");
    reveal_strlit("classification.unknown-kind");
    reveal_strlit("classification.unknown-subject");
    reveal_strlit("cli.usage");
    reveal_strlit("contracted.binding-drift");
    reveal_strlit("contracted.coverage-missing");
    reveal_strlit("contracted.declaration-invalid");
    reveal_strlit("contracted.declaration-limit");
    reveal_strlit("contracted.registry-io");
    reveal_strlit("contracted.stale-artifact");
    reveal_strlit("contracted.unknown-module");
    reveal_strlit("contracted.unknown-symbol");
    reveal_strlit("dataflow.destination-forbidden");
    reveal_strlit("dataflow.exposed-private-field");
    reveal_strlit("dataflow.low-confidence-sensitive");
    reveal_strlit("dataflow.missing-approval");
    reveal_strlit("dataflow.missing-destination");
    reveal_strlit("dataflow.observed-incomplete");
    reveal_strlit("dataflow.tenant-crossing");
    reveal_strlit("dataflow.unknown-flow");
    assert("adapter.diagnostic-invalid"@.len() == 26);
    assert("classification.conflicting-kind"@.len() == 31);
    assert("classification.custody-ir"@.len() == 25);
    assert("classification.custody-model"@.len() == 28);
    assert("classification.custody-project"@.len() == 30);
    assert("classification.duplicate-subject"@.len() == 32);
    assert("classification.expired-declassification"@.len() == 39);
    assert("classification.invalid-declassification"@.len() == 39);
    assert("classification.kind-rule-missing"@.len() == 32);
    assert("classification.malformed-review-ref"@.len() == 35);
    assert("classification.missing-approval"@.len() == 31);
    assert("classification.policy-missing"@.len() == 29);
    assert("classification.self-approved"@.len() == 28);
    assert("classification.sink-ceiling-exceeded"@.len() == 36);
    assert("classification.unclassified-sensitive-sink"@.len() == 42);
    assert("classification.unknown-kind"@.len() == 27);
    assert("classification.unknown-subject"@.len() == 30);
    assert("cli.usage"@.len() == 9);
    assert("contracted.binding-drift"@.len() == 24);
    assert("contracted.coverage-missing"@.len() == 27);
    assert("contracted.declaration-invalid"@.len() == 30);
    assert("contracted.declaration-limit"@.len() == 28);
    assert("contracted.registry-io"@.len() == 22);
    assert("contracted.stale-artifact"@.len() == 25);
    assert("contracted.unknown-module"@.len() == 25);
    assert("contracted.unknown-symbol"@.len() == 25);
    assert("dataflow.destination-forbidden"@.len() == 30);
    assert("dataflow.exposed-private-field"@.len() == 30);
    assert("dataflow.low-confidence-sensitive"@.len() == 33);
    assert("dataflow.missing-approval"@.len() == 25);
    assert("dataflow.missing-destination"@.len() == 28);
    assert("dataflow.observed-incomplete"@.len() == 28);
    assert("dataflow.tenant-crossing"@.len() == 24);
    assert("dataflow.unknown-flow"@.len() == 21);
    let t = rule_table();
    assert(t[0].id != "dataflow.unknown-flow"@);
    assert(t[1].id != "dataflow.unknown-flow"@);
    assert(t[2].id != "dataflow.unknown-flow"@);
    assert(t[3].id != "dataflow.unknown-flow"@);
    assert(t[4].id != "dataflow.unknown-flow"@);
    assert(t[5].id != "dataflow.unknown-flow"@);
    assert(t[6].id != "dataflow.unknown-flow"@);
    assert(t[7].id != "dataflow.unknown-flow"@);
    assert(t[8].id != "dataflow.unknown-flow"@);
    assert(t[9].id != "dataflow.unknown-flow"@);
    assert(t[10].id != "dataflow.unknown-flow"@);
    assert(t[11].id != "dataflow.unknown-flow"@);
    assert(t[12].id != "dataflow.unknown-flow"@);
    assert(t[13].id != "dataflow.unknown-flow"@);
    assert(t[14].id != "dataflow.unknown-flow"@);
    assert(t[15].id != "dataflow.unknown-flow"@);
    assert(t[16].id != "dataflow.unknown-flow"@);
    assert(t[17].id != "dataflow.unknown-flow"@);
    assert(t[18].id != "dataflow.unknown-flow"@);
    assert(t[19].id != "dataflow.unknown-flow"@);
    assert(t[20].id != "dataflow.unknown-flow"@);
    assert(t[21].id != "dataflow.unknown-flow"@);
    assert(t[22].id != "dataflow.unknown-flow"@);
    assert(t[23].id != "dataflow.unknown-flow"@);
    assert(t[24].id != "dataflow.unknown-flow"@);
    assert(t[25].id != "dataflow.unknown-flow"@);
    assert(t[26].id != "dataflow.unknown-flow"@);
    assert(t[27].id != "dataflow.unknown-flow"@);
    assert(t[28].id != "dataflow.unknown-flow"@);
    assert(t[29].id != "dataflow.unknown-flow"@);
    assert(t[30].id != "dataflow.unknown-flow"@);
    assert(t[31].id != "dataflow.unknown-flow"@);
    assert(t[32].id != "dataflow.unknown-flow"@);
    assert(t[33] == rule_dataflow_unknown_flow());
    lemma_find_rule_at(t, "dataflow.unknown-flow"@, 33);
}

/// `diagnostics.registry-invalid` finds its own row.
pub proof fn lemma_found_diagnostics_registry_invalid()
    ensures
        find_rule(rule_table(), "diagnostics.registry-invalid"@) == Some(rule_diagnostics_registry_invalid()),
{
    reveal_strlit("adapter.diagnostic-invalid");
    reveal_strlit("classification.conflicting-kind");
    reveal_strlit("classification.custody-ir");
    reveal_strlit("classification.custody-model");
    reveal_strlit("classification.custody-project");
    reveal_strlit("classification.duplicate-subject");
    reveal_strlit("classification.expired-declassification");
    reveal_strlit("classification.invalid-declassification");
    reveal_strlit("classification.kind-rule-missing");
    reveal_strlit("classification.malformed-review-ref");
    reveal_strlit("classification.missing-approval");
    reveal_strlit("classification.policy-missing");
    reveal_strlit("classification.self-approved");
    reveal_strlit("classification.sink-ceiling-exceeded");
    reveal_strlit("classification.unclassified-sensitive-sink");
    reveal_strlit("classification.unknown-kind");
    reveal_strlit("classification.unknown-subject");
    reveal_strlit("cli.usage");
    reveal_strlit("contracted.binding-drift");
    reveal_strlit("contracted.coverage-missing");
    reveal_strlit("contracted.declaration-invalid");
    reveal_strlit("contracted.declaration-limit");
    reveal_strlit("contracted.registry-io");
    reveal_strlit("contracted.stale-artifact");
    reveal_strlit("contracted.unknown-module");
    reveal_strlit("contracted.unknown-symbol");
    reveal_strlit("dataflow.destination-forbidden");
    reveal_strlit("dataflow.exposed-private-field");
    reveal_strlit("dataflow.low-confidence-sensitive");
    reveal_strlit("dataflow.missing-approval");
    reveal_strlit("dataflow.missing-destination");
    reveal_strlit("dataflow.observed-incomplete");
    reveal_strlit("dataflow.tenant-crossing");
    reveal_strlit("dataflow.unknown-flow");
    reveal_strlit("diagnostics.registry-invalid");
    assert("adapter.diagnostic-invalid"@.len() == 26);
    assert("classification.conflicting-kind"@.len() == 31);
    assert("classification.custody-ir"@.len() == 25);
    assert("classification.custody-model"@.len() == 28);
    assert("classification.custody-project"@.len() == 30);
    assert("classification.duplicate-subject"@.len() == 32);
    assert("classification.expired-declassification"@.len() == 39);
    assert("classification.invalid-declassification"@.len() == 39);
    assert("classification.kind-rule-missing"@.len() == 32);
    assert("classification.malformed-review-ref"@.len() == 35);
    assert("classification.missing-approval"@.len() == 31);
    assert("classification.policy-missing"@.len() == 29);
    assert("classification.self-approved"@.len() == 28);
    assert("classification.sink-ceiling-exceeded"@.len() == 36);
    assert("classification.unclassified-sensitive-sink"@.len() == 42);
    assert("classification.unknown-kind"@.len() == 27);
    assert("classification.unknown-subject"@.len() == 30);
    assert("cli.usage"@.len() == 9);
    assert("contracted.binding-drift"@.len() == 24);
    assert("contracted.coverage-missing"@.len() == 27);
    assert("contracted.declaration-invalid"@.len() == 30);
    assert("contracted.declaration-limit"@.len() == 28);
    assert("contracted.registry-io"@.len() == 22);
    assert("contracted.stale-artifact"@.len() == 25);
    assert("contracted.unknown-module"@.len() == 25);
    assert("contracted.unknown-symbol"@.len() == 25);
    assert("dataflow.destination-forbidden"@.len() == 30);
    assert("dataflow.exposed-private-field"@.len() == 30);
    assert("dataflow.low-confidence-sensitive"@.len() == 33);
    assert("dataflow.missing-approval"@.len() == 25);
    assert("dataflow.missing-destination"@.len() == 28);
    assert("dataflow.observed-incomplete"@.len() == 28);
    assert("dataflow.tenant-crossing"@.len() == 24);
    assert("dataflow.unknown-flow"@.len() == 21);
    assert("diagnostics.registry-invalid"@.len() == 28);
    assert("classification.custody-model"@[0] == 'c');
    assert("diagnostics.registry-invalid"@[0] == 'd');
    assert("classification.self-approved"@[0] == 'c');
    assert("diagnostics.registry-invalid"@[0] == 'd');
    assert("contracted.declaration-limit"@[0] == 'c');
    assert("diagnostics.registry-invalid"@[0] == 'd');
    assert("dataflow.missing-destination"@[1] == 'a');
    assert("diagnostics.registry-invalid"@[1] == 'i');
    assert("dataflow.observed-incomplete"@[1] == 'a');
    assert("diagnostics.registry-invalid"@[1] == 'i');
    let t = rule_table();
    assert(t[0].id != "diagnostics.registry-invalid"@);
    assert(t[1].id != "diagnostics.registry-invalid"@);
    assert(t[2].id != "diagnostics.registry-invalid"@);
    assert(t[3].id != "diagnostics.registry-invalid"@);
    assert(t[4].id != "diagnostics.registry-invalid"@);
    assert(t[5].id != "diagnostics.registry-invalid"@);
    assert(t[6].id != "diagnostics.registry-invalid"@);
    assert(t[7].id != "diagnostics.registry-invalid"@);
    assert(t[8].id != "diagnostics.registry-invalid"@);
    assert(t[9].id != "diagnostics.registry-invalid"@);
    assert(t[10].id != "diagnostics.registry-invalid"@);
    assert(t[11].id != "diagnostics.registry-invalid"@);
    assert(t[12].id != "diagnostics.registry-invalid"@);
    assert(t[13].id != "diagnostics.registry-invalid"@);
    assert(t[14].id != "diagnostics.registry-invalid"@);
    assert(t[15].id != "diagnostics.registry-invalid"@);
    assert(t[16].id != "diagnostics.registry-invalid"@);
    assert(t[17].id != "diagnostics.registry-invalid"@);
    assert(t[18].id != "diagnostics.registry-invalid"@);
    assert(t[19].id != "diagnostics.registry-invalid"@);
    assert(t[20].id != "diagnostics.registry-invalid"@);
    assert(t[21].id != "diagnostics.registry-invalid"@);
    assert(t[22].id != "diagnostics.registry-invalid"@);
    assert(t[23].id != "diagnostics.registry-invalid"@);
    assert(t[24].id != "diagnostics.registry-invalid"@);
    assert(t[25].id != "diagnostics.registry-invalid"@);
    assert(t[26].id != "diagnostics.registry-invalid"@);
    assert(t[27].id != "diagnostics.registry-invalid"@);
    assert(t[28].id != "diagnostics.registry-invalid"@);
    assert(t[29].id != "diagnostics.registry-invalid"@);
    assert(t[30].id != "diagnostics.registry-invalid"@);
    assert(t[31].id != "diagnostics.registry-invalid"@);
    assert(t[32].id != "diagnostics.registry-invalid"@);
    assert(t[33].id != "diagnostics.registry-invalid"@);
    assert(t[34] == rule_diagnostics_registry_invalid());
    lemma_find_rule_at(t, "diagnostics.registry-invalid"@, 34);
}

/// `graph.input-invalid` finds its own row.
pub proof fn lemma_found_graph_input_invalid()
    ensures
        find_rule(rule_table(), "graph.input-invalid"@) == Some(rule_graph_input_invalid()),
{
    reveal_strlit("adapter.diagnostic-invalid");
    reveal_strlit("classification.conflicting-kind");
    reveal_strlit("classification.custody-ir");
    reveal_strlit("classification.custody-model");
    reveal_strlit("classification.custody-project");
    reveal_strlit("classification.duplicate-subject");
    reveal_strlit("classification.expired-declassification");
    reveal_strlit("classification.invalid-declassification");
    reveal_strlit("classification.kind-rule-missing");
    reveal_strlit("classification.malformed-review-ref");
    reveal_strlit("classification.missing-approval");
    reveal_strlit("classification.policy-missing");
    reveal_strlit("classification.self-approved");
    reveal_strlit("classification.sink-ceiling-exceeded");
    reveal_strlit("classification.unclassified-sensitive-sink");
    reveal_strlit("classification.unknown-kind");
    reveal_strlit("classification.unknown-subject");
    reveal_strlit("cli.usage");
    reveal_strlit("contracted.binding-drift");
    reveal_strlit("contracted.coverage-missing");
    reveal_strlit("contracted.declaration-invalid");
    reveal_strlit("contracted.declaration-limit");
    reveal_strlit("contracted.registry-io");
    reveal_strlit("contracted.stale-artifact");
    reveal_strlit("contracted.unknown-module");
    reveal_strlit("contracted.unknown-symbol");
    reveal_strlit("dataflow.destination-forbidden");
    reveal_strlit("dataflow.exposed-private-field");
    reveal_strlit("dataflow.low-confidence-sensitive");
    reveal_strlit("dataflow.missing-approval");
    reveal_strlit("dataflow.missing-destination");
    reveal_strlit("dataflow.observed-incomplete");
    reveal_strlit("dataflow.tenant-crossing");
    reveal_strlit("dataflow.unknown-flow");
    reveal_strlit("diagnostics.registry-invalid");
    reveal_strlit("graph.input-invalid");
    assert("adapter.diagnostic-invalid"@.len() == 26);
    assert("classification.conflicting-kind"@.len() == 31);
    assert("classification.custody-ir"@.len() == 25);
    assert("classification.custody-model"@.len() == 28);
    assert("classification.custody-project"@.len() == 30);
    assert("classification.duplicate-subject"@.len() == 32);
    assert("classification.expired-declassification"@.len() == 39);
    assert("classification.invalid-declassification"@.len() == 39);
    assert("classification.kind-rule-missing"@.len() == 32);
    assert("classification.malformed-review-ref"@.len() == 35);
    assert("classification.missing-approval"@.len() == 31);
    assert("classification.policy-missing"@.len() == 29);
    assert("classification.self-approved"@.len() == 28);
    assert("classification.sink-ceiling-exceeded"@.len() == 36);
    assert("classification.unclassified-sensitive-sink"@.len() == 42);
    assert("classification.unknown-kind"@.len() == 27);
    assert("classification.unknown-subject"@.len() == 30);
    assert("cli.usage"@.len() == 9);
    assert("contracted.binding-drift"@.len() == 24);
    assert("contracted.coverage-missing"@.len() == 27);
    assert("contracted.declaration-invalid"@.len() == 30);
    assert("contracted.declaration-limit"@.len() == 28);
    assert("contracted.registry-io"@.len() == 22);
    assert("contracted.stale-artifact"@.len() == 25);
    assert("contracted.unknown-module"@.len() == 25);
    assert("contracted.unknown-symbol"@.len() == 25);
    assert("dataflow.destination-forbidden"@.len() == 30);
    assert("dataflow.exposed-private-field"@.len() == 30);
    assert("dataflow.low-confidence-sensitive"@.len() == 33);
    assert("dataflow.missing-approval"@.len() == 25);
    assert("dataflow.missing-destination"@.len() == 28);
    assert("dataflow.observed-incomplete"@.len() == 28);
    assert("dataflow.tenant-crossing"@.len() == 24);
    assert("dataflow.unknown-flow"@.len() == 21);
    assert("diagnostics.registry-invalid"@.len() == 28);
    assert("graph.input-invalid"@.len() == 19);
    let t = rule_table();
    assert(t[0].id != "graph.input-invalid"@);
    assert(t[1].id != "graph.input-invalid"@);
    assert(t[2].id != "graph.input-invalid"@);
    assert(t[3].id != "graph.input-invalid"@);
    assert(t[4].id != "graph.input-invalid"@);
    assert(t[5].id != "graph.input-invalid"@);
    assert(t[6].id != "graph.input-invalid"@);
    assert(t[7].id != "graph.input-invalid"@);
    assert(t[8].id != "graph.input-invalid"@);
    assert(t[9].id != "graph.input-invalid"@);
    assert(t[10].id != "graph.input-invalid"@);
    assert(t[11].id != "graph.input-invalid"@);
    assert(t[12].id != "graph.input-invalid"@);
    assert(t[13].id != "graph.input-invalid"@);
    assert(t[14].id != "graph.input-invalid"@);
    assert(t[15].id != "graph.input-invalid"@);
    assert(t[16].id != "graph.input-invalid"@);
    assert(t[17].id != "graph.input-invalid"@);
    assert(t[18].id != "graph.input-invalid"@);
    assert(t[19].id != "graph.input-invalid"@);
    assert(t[20].id != "graph.input-invalid"@);
    assert(t[21].id != "graph.input-invalid"@);
    assert(t[22].id != "graph.input-invalid"@);
    assert(t[23].id != "graph.input-invalid"@);
    assert(t[24].id != "graph.input-invalid"@);
    assert(t[25].id != "graph.input-invalid"@);
    assert(t[26].id != "graph.input-invalid"@);
    assert(t[27].id != "graph.input-invalid"@);
    assert(t[28].id != "graph.input-invalid"@);
    assert(t[29].id != "graph.input-invalid"@);
    assert(t[30].id != "graph.input-invalid"@);
    assert(t[31].id != "graph.input-invalid"@);
    assert(t[32].id != "graph.input-invalid"@);
    assert(t[33].id != "graph.input-invalid"@);
    assert(t[34].id != "graph.input-invalid"@);
    assert(t[35] == rule_graph_input_invalid());
    lemma_find_rule_at(t, "graph.input-invalid"@, 35);
}

/// `graph.unknown-node` finds its own row.
pub proof fn lemma_found_graph_unknown_node()
    ensures
        find_rule(rule_table(), "graph.unknown-node"@) == Some(rule_graph_unknown_node()),
{
    reveal_strlit("adapter.diagnostic-invalid");
    reveal_strlit("classification.conflicting-kind");
    reveal_strlit("classification.custody-ir");
    reveal_strlit("classification.custody-model");
    reveal_strlit("classification.custody-project");
    reveal_strlit("classification.duplicate-subject");
    reveal_strlit("classification.expired-declassification");
    reveal_strlit("classification.invalid-declassification");
    reveal_strlit("classification.kind-rule-missing");
    reveal_strlit("classification.malformed-review-ref");
    reveal_strlit("classification.missing-approval");
    reveal_strlit("classification.policy-missing");
    reveal_strlit("classification.self-approved");
    reveal_strlit("classification.sink-ceiling-exceeded");
    reveal_strlit("classification.unclassified-sensitive-sink");
    reveal_strlit("classification.unknown-kind");
    reveal_strlit("classification.unknown-subject");
    reveal_strlit("cli.usage");
    reveal_strlit("contracted.binding-drift");
    reveal_strlit("contracted.coverage-missing");
    reveal_strlit("contracted.declaration-invalid");
    reveal_strlit("contracted.declaration-limit");
    reveal_strlit("contracted.registry-io");
    reveal_strlit("contracted.stale-artifact");
    reveal_strlit("contracted.unknown-module");
    reveal_strlit("contracted.unknown-symbol");
    reveal_strlit("dataflow.destination-forbidden");
    reveal_strlit("dataflow.exposed-private-field");
    reveal_strlit("dataflow.low-confidence-sensitive");
    reveal_strlit("dataflow.missing-approval");
    reveal_strlit("dataflow.missing-destination");
    reveal_strlit("dataflow.observed-incomplete");
    reveal_strlit("dataflow.tenant-crossing");
    reveal_strlit("dataflow.unknown-flow");
    reveal_strlit("diagnostics.registry-invalid");
    reveal_strlit("graph.input-invalid");
    reveal_strlit("graph.unknown-node");
    assert("adapter.diagnostic-invalid"@.len() == 26);
    assert("classification.conflicting-kind"@.len() == 31);
    assert("classification.custody-ir"@.len() == 25);
    assert("classification.custody-model"@.len() == 28);
    assert("classification.custody-project"@.len() == 30);
    assert("classification.duplicate-subject"@.len() == 32);
    assert("classification.expired-declassification"@.len() == 39);
    assert("classification.invalid-declassification"@.len() == 39);
    assert("classification.kind-rule-missing"@.len() == 32);
    assert("classification.malformed-review-ref"@.len() == 35);
    assert("classification.missing-approval"@.len() == 31);
    assert("classification.policy-missing"@.len() == 29);
    assert("classification.self-approved"@.len() == 28);
    assert("classification.sink-ceiling-exceeded"@.len() == 36);
    assert("classification.unclassified-sensitive-sink"@.len() == 42);
    assert("classification.unknown-kind"@.len() == 27);
    assert("classification.unknown-subject"@.len() == 30);
    assert("cli.usage"@.len() == 9);
    assert("contracted.binding-drift"@.len() == 24);
    assert("contracted.coverage-missing"@.len() == 27);
    assert("contracted.declaration-invalid"@.len() == 30);
    assert("contracted.declaration-limit"@.len() == 28);
    assert("contracted.registry-io"@.len() == 22);
    assert("contracted.stale-artifact"@.len() == 25);
    assert("contracted.unknown-module"@.len() == 25);
    assert("contracted.unknown-symbol"@.len() == 25);
    assert("dataflow.destination-forbidden"@.len() == 30);
    assert("dataflow.exposed-private-field"@.len() == 30);
    assert("dataflow.low-confidence-sensitive"@.len() == 33);
    assert("dataflow.missing-approval"@.len() == 25);
    assert("dataflow.missing-destination"@.len() == 28);
    assert("dataflow.observed-incomplete"@.len() == 28);
    assert("dataflow.tenant-crossing"@.len() == 24);
    assert("dataflow.unknown-flow"@.len() == 21);
    assert("diagnostics.registry-invalid"@.len() == 28);
    assert("graph.input-invalid"@.len() == 19);
    assert("graph.unknown-node"@.len() == 18);
    let t = rule_table();
    assert(t[0].id != "graph.unknown-node"@);
    assert(t[1].id != "graph.unknown-node"@);
    assert(t[2].id != "graph.unknown-node"@);
    assert(t[3].id != "graph.unknown-node"@);
    assert(t[4].id != "graph.unknown-node"@);
    assert(t[5].id != "graph.unknown-node"@);
    assert(t[6].id != "graph.unknown-node"@);
    assert(t[7].id != "graph.unknown-node"@);
    assert(t[8].id != "graph.unknown-node"@);
    assert(t[9].id != "graph.unknown-node"@);
    assert(t[10].id != "graph.unknown-node"@);
    assert(t[11].id != "graph.unknown-node"@);
    assert(t[12].id != "graph.unknown-node"@);
    assert(t[13].id != "graph.unknown-node"@);
    assert(t[14].id != "graph.unknown-node"@);
    assert(t[15].id != "graph.unknown-node"@);
    assert(t[16].id != "graph.unknown-node"@);
    assert(t[17].id != "graph.unknown-node"@);
    assert(t[18].id != "graph.unknown-node"@);
    assert(t[19].id != "graph.unknown-node"@);
    assert(t[20].id != "graph.unknown-node"@);
    assert(t[21].id != "graph.unknown-node"@);
    assert(t[22].id != "graph.unknown-node"@);
    assert(t[23].id != "graph.unknown-node"@);
    assert(t[24].id != "graph.unknown-node"@);
    assert(t[25].id != "graph.unknown-node"@);
    assert(t[26].id != "graph.unknown-node"@);
    assert(t[27].id != "graph.unknown-node"@);
    assert(t[28].id != "graph.unknown-node"@);
    assert(t[29].id != "graph.unknown-node"@);
    assert(t[30].id != "graph.unknown-node"@);
    assert(t[31].id != "graph.unknown-node"@);
    assert(t[32].id != "graph.unknown-node"@);
    assert(t[33].id != "graph.unknown-node"@);
    assert(t[34].id != "graph.unknown-node"@);
    assert(t[35].id != "graph.unknown-node"@);
    assert(t[36] == rule_graph_unknown_node());
    lemma_find_rule_at(t, "graph.unknown-node"@, 36);
}

/// `loader.import-cycle` finds its own row.
pub proof fn lemma_found_loader_import_cycle()
    ensures
        find_rule(rule_table(), "loader.import-cycle"@) == Some(rule_loader_import_cycle()),
{
    reveal_strlit("adapter.diagnostic-invalid");
    reveal_strlit("classification.conflicting-kind");
    reveal_strlit("classification.custody-ir");
    reveal_strlit("classification.custody-model");
    reveal_strlit("classification.custody-project");
    reveal_strlit("classification.duplicate-subject");
    reveal_strlit("classification.expired-declassification");
    reveal_strlit("classification.invalid-declassification");
    reveal_strlit("classification.kind-rule-missing");
    reveal_strlit("classification.malformed-review-ref");
    reveal_strlit("classification.missing-approval");
    reveal_strlit("classification.policy-missing");
    reveal_strlit("classification.self-approved");
    reveal_strlit("classification.sink-ceiling-exceeded");
    reveal_strlit("classification.unclassified-sensitive-sink");
    reveal_strlit("classification.unknown-kind");
    reveal_strlit("classification.unknown-subject");
    reveal_strlit("cli.usage");
    reveal_strlit("contracted.binding-drift");
    reveal_strlit("contracted.coverage-missing");
    reveal_strlit("contracted.declaration-invalid");
    reveal_strlit("contracted.declaration-limit");
    reveal_strlit("contracted.registry-io");
    reveal_strlit("contracted.stale-artifact");
    reveal_strlit("contracted.unknown-module");
    reveal_strlit("contracted.unknown-symbol");
    reveal_strlit("dataflow.destination-forbidden");
    reveal_strlit("dataflow.exposed-private-field");
    reveal_strlit("dataflow.low-confidence-sensitive");
    reveal_strlit("dataflow.missing-approval");
    reveal_strlit("dataflow.missing-destination");
    reveal_strlit("dataflow.observed-incomplete");
    reveal_strlit("dataflow.tenant-crossing");
    reveal_strlit("dataflow.unknown-flow");
    reveal_strlit("diagnostics.registry-invalid");
    reveal_strlit("graph.input-invalid");
    reveal_strlit("graph.unknown-node");
    reveal_strlit("loader.import-cycle");
    assert("adapter.diagnostic-invalid"@.len() == 26);
    assert("classification.conflicting-kind"@.len() == 31);
    assert("classification.custody-ir"@.len() == 25);
    assert("classification.custody-model"@.len() == 28);
    assert("classification.custody-project"@.len() == 30);
    assert("classification.duplicate-subject"@.len() == 32);
    assert("classification.expired-declassification"@.len() == 39);
    assert("classification.invalid-declassification"@.len() == 39);
    assert("classification.kind-rule-missing"@.len() == 32);
    assert("classification.malformed-review-ref"@.len() == 35);
    assert("classification.missing-approval"@.len() == 31);
    assert("classification.policy-missing"@.len() == 29);
    assert("classification.self-approved"@.len() == 28);
    assert("classification.sink-ceiling-exceeded"@.len() == 36);
    assert("classification.unclassified-sensitive-sink"@.len() == 42);
    assert("classification.unknown-kind"@.len() == 27);
    assert("classification.unknown-subject"@.len() == 30);
    assert("cli.usage"@.len() == 9);
    assert("contracted.binding-drift"@.len() == 24);
    assert("contracted.coverage-missing"@.len() == 27);
    assert("contracted.declaration-invalid"@.len() == 30);
    assert("contracted.declaration-limit"@.len() == 28);
    assert("contracted.registry-io"@.len() == 22);
    assert("contracted.stale-artifact"@.len() == 25);
    assert("contracted.unknown-module"@.len() == 25);
    assert("contracted.unknown-symbol"@.len() == 25);
    assert("dataflow.destination-forbidden"@.len() == 30);
    assert("dataflow.exposed-private-field"@.len() == 30);
    assert("dataflow.low-confidence-sensitive"@.len() == 33);
    assert("dataflow.missing-approval"@.len() == 25);
    assert("dataflow.missing-destination"@.len() == 28);
    assert("dataflow.observed-incomplete"@.len() == 28);
    assert("dataflow.tenant-crossing"@.len() == 24);
    assert("dataflow.unknown-flow"@.len() == 21);
    assert("diagnostics.registry-invalid"@.len() == 28);
    assert("graph.input-invalid"@.len() == 19);
    assert("graph.unknown-node"@.len() == 18);
    assert("loader.import-cycle"@.len() == 19);
    assert("graph.input-invalid"@[0] == 'g');
    assert("loader.import-cycle"@[0] == 'l');
    let t = rule_table();
    assert(t[0].id != "loader.import-cycle"@);
    assert(t[1].id != "loader.import-cycle"@);
    assert(t[2].id != "loader.import-cycle"@);
    assert(t[3].id != "loader.import-cycle"@);
    assert(t[4].id != "loader.import-cycle"@);
    assert(t[5].id != "loader.import-cycle"@);
    assert(t[6].id != "loader.import-cycle"@);
    assert(t[7].id != "loader.import-cycle"@);
    assert(t[8].id != "loader.import-cycle"@);
    assert(t[9].id != "loader.import-cycle"@);
    assert(t[10].id != "loader.import-cycle"@);
    assert(t[11].id != "loader.import-cycle"@);
    assert(t[12].id != "loader.import-cycle"@);
    assert(t[13].id != "loader.import-cycle"@);
    assert(t[14].id != "loader.import-cycle"@);
    assert(t[15].id != "loader.import-cycle"@);
    assert(t[16].id != "loader.import-cycle"@);
    assert(t[17].id != "loader.import-cycle"@);
    assert(t[18].id != "loader.import-cycle"@);
    assert(t[19].id != "loader.import-cycle"@);
    assert(t[20].id != "loader.import-cycle"@);
    assert(t[21].id != "loader.import-cycle"@);
    assert(t[22].id != "loader.import-cycle"@);
    assert(t[23].id != "loader.import-cycle"@);
    assert(t[24].id != "loader.import-cycle"@);
    assert(t[25].id != "loader.import-cycle"@);
    assert(t[26].id != "loader.import-cycle"@);
    assert(t[27].id != "loader.import-cycle"@);
    assert(t[28].id != "loader.import-cycle"@);
    assert(t[29].id != "loader.import-cycle"@);
    assert(t[30].id != "loader.import-cycle"@);
    assert(t[31].id != "loader.import-cycle"@);
    assert(t[32].id != "loader.import-cycle"@);
    assert(t[33].id != "loader.import-cycle"@);
    assert(t[34].id != "loader.import-cycle"@);
    assert(t[35].id != "loader.import-cycle"@);
    assert(t[36].id != "loader.import-cycle"@);
    assert(t[37] == rule_loader_import_cycle());
    lemma_find_rule_at(t, "loader.import-cycle"@, 37);
}

/// `loader.import-missing` finds its own row.
pub proof fn lemma_found_loader_import_missing()
    ensures
        find_rule(rule_table(), "loader.import-missing"@) == Some(rule_loader_import_missing()),
{
    reveal_strlit("adapter.diagnostic-invalid");
    reveal_strlit("classification.conflicting-kind");
    reveal_strlit("classification.custody-ir");
    reveal_strlit("classification.custody-model");
    reveal_strlit("classification.custody-project");
    reveal_strlit("classification.duplicate-subject");
    reveal_strlit("classification.expired-declassification");
    reveal_strlit("classification.invalid-declassification");
    reveal_strlit("classification.kind-rule-missing");
    reveal_strlit("classification.malformed-review-ref");
    reveal_strlit("classification.missing-approval");
    reveal_strlit("classification.policy-missing");
    reveal_strlit("classification.self-approved");
    reveal_strlit("classification.sink-ceiling-exceeded");
    reveal_strlit("classification.unclassified-sensitive-sink");
    reveal_strlit("classification.unknown-kind");
    reveal_strlit("classification.unknown-subject");
    reveal_strlit("cli.usage");
    reveal_strlit("contracted.binding-drift");
    reveal_strlit("contracted.coverage-missing");
    reveal_strlit("contracted.declaration-invalid");
    reveal_strlit("contracted.declaration-limit");
    reveal_strlit("contracted.registry-io");
    reveal_strlit("contracted.stale-artifact");
    reveal_strlit("contracted.unknown-module");
    reveal_strlit("contracted.unknown-symbol");
    reveal_strlit("dataflow.destination-forbidden");
    reveal_strlit("dataflow.exposed-private-field");
    reveal_strlit("dataflow.low-confidence-sensitive");
    reveal_strlit("dataflow.missing-approval");
    reveal_strlit("dataflow.missing-destination");
    reveal_strlit("dataflow.observed-incomplete");
    reveal_strlit("dataflow.tenant-crossing");
    reveal_strlit("dataflow.unknown-flow");
    reveal_strlit("diagnostics.registry-invalid");
    reveal_strlit("graph.input-invalid");
    reveal_strlit("graph.unknown-node");
    reveal_strlit("loader.import-cycle");
    reveal_strlit("loader.import-missing");
    assert("adapter.diagnostic-invalid"@.len() == 26);
    assert("classification.conflicting-kind"@.len() == 31);
    assert("classification.custody-ir"@.len() == 25);
    assert("classification.custody-model"@.len() == 28);
    assert("classification.custody-project"@.len() == 30);
    assert("classification.duplicate-subject"@.len() == 32);
    assert("classification.expired-declassification"@.len() == 39);
    assert("classification.invalid-declassification"@.len() == 39);
    assert("classification.kind-rule-missing"@.len() == 32);
    assert("classification.malformed-review-ref"@.len() == 35);
    assert("classification.missing-approval"@.len() == 31);
    assert("classification.policy-missing"@.len() == 29);
    assert("classification.self-approved"@.len() == 28);
    assert("classification.sink-ceiling-exceeded"@.len() == 36);
    assert("classification.unclassified-sensitive-sink"@.len() == 42);
    assert("classification.unknown-kind"@.len() == 27);
    assert("classification.unknown-subject"@.len() == 30);
    assert("cli.usage"@.len() == 9);
    assert("contracted.binding-drift"@.len() == 24);
    assert("contracted.coverage-missing"@.len() == 27);
    assert("contracted.declaration-invalid"@.len() == 30);
    assert("contracted.declaration-limit"@.len() == 28);
    assert("contracted.registry-io"@.len() == 22);
    assert("contracted.stale-artifact"@.len() == 25);
    assert("contracted.unknown-module"@.len() == 25);
    assert("contracted.unknown-symbol"@.len() == 25);
    assert("dataflow.destination-forbidden"@.len() == 30);
    assert("dataflow.exposed-private-field"@.len() == 30);
    assert("dataflow.low-confidence-sensitive"@.len() == 33);
    assert("dataflow.missing-approval"@.len() == 25);
    assert("dataflow.missing-destination"@.len() == 28);
    assert("dataflow.observed-incomplete"@.len() == 28);
    assert("dataflow.tenant-crossing"@.len() == 24);
    assert("dataflow.unknown-flow"@.len() == 21);
    assert("diagnostics.registry-invalid"@.len() == 28);
    assert("graph.input-invalid"@.len() == 19);
    assert("graph.unknown-node"@.len() == 18);
    assert("loader.import-cycle"@.len() == 19);
    assert("loader.import-missing"@.len() == 21);
    assert("dataflow.unknown-flow"@[0] == 'd');
    assert("loader.import-missing"@[0] == 'l');
    let t = rule_table();
    assert(t[0].id != "loader.import-missing"@);
    assert(t[1].id != "loader.import-missing"@);
    assert(t[2].id != "loader.import-missing"@);
    assert(t[3].id != "loader.import-missing"@);
    assert(t[4].id != "loader.import-missing"@);
    assert(t[5].id != "loader.import-missing"@);
    assert(t[6].id != "loader.import-missing"@);
    assert(t[7].id != "loader.import-missing"@);
    assert(t[8].id != "loader.import-missing"@);
    assert(t[9].id != "loader.import-missing"@);
    assert(t[10].id != "loader.import-missing"@);
    assert(t[11].id != "loader.import-missing"@);
    assert(t[12].id != "loader.import-missing"@);
    assert(t[13].id != "loader.import-missing"@);
    assert(t[14].id != "loader.import-missing"@);
    assert(t[15].id != "loader.import-missing"@);
    assert(t[16].id != "loader.import-missing"@);
    assert(t[17].id != "loader.import-missing"@);
    assert(t[18].id != "loader.import-missing"@);
    assert(t[19].id != "loader.import-missing"@);
    assert(t[20].id != "loader.import-missing"@);
    assert(t[21].id != "loader.import-missing"@);
    assert(t[22].id != "loader.import-missing"@);
    assert(t[23].id != "loader.import-missing"@);
    assert(t[24].id != "loader.import-missing"@);
    assert(t[25].id != "loader.import-missing"@);
    assert(t[26].id != "loader.import-missing"@);
    assert(t[27].id != "loader.import-missing"@);
    assert(t[28].id != "loader.import-missing"@);
    assert(t[29].id != "loader.import-missing"@);
    assert(t[30].id != "loader.import-missing"@);
    assert(t[31].id != "loader.import-missing"@);
    assert(t[32].id != "loader.import-missing"@);
    assert(t[33].id != "loader.import-missing"@);
    assert(t[34].id != "loader.import-missing"@);
    assert(t[35].id != "loader.import-missing"@);
    assert(t[36].id != "loader.import-missing"@);
    assert(t[37].id != "loader.import-missing"@);
    assert(t[38] == rule_loader_import_missing());
    lemma_find_rule_at(t, "loader.import-missing"@, 38);
}

/// `loader.json-parse` finds its own row.
pub proof fn lemma_found_loader_json_parse()
    ensures
        find_rule(rule_table(), "loader.json-parse"@) == Some(rule_loader_json_parse()),
{
    reveal_strlit("adapter.diagnostic-invalid");
    reveal_strlit("classification.conflicting-kind");
    reveal_strlit("classification.custody-ir");
    reveal_strlit("classification.custody-model");
    reveal_strlit("classification.custody-project");
    reveal_strlit("classification.duplicate-subject");
    reveal_strlit("classification.expired-declassification");
    reveal_strlit("classification.invalid-declassification");
    reveal_strlit("classification.kind-rule-missing");
    reveal_strlit("classification.malformed-review-ref");
    reveal_strlit("classification.missing-approval");
    reveal_strlit("classification.policy-missing");
    reveal_strlit("classification.self-approved");
    reveal_strlit("classification.sink-ceiling-exceeded");
    reveal_strlit("classification.unclassified-sensitive-sink");
    reveal_strlit("classification.unknown-kind");
    reveal_strlit("classification.unknown-subject");
    reveal_strlit("cli.usage");
    reveal_strlit("contracted.binding-drift");
    reveal_strlit("contracted.coverage-missing");
    reveal_strlit("contracted.declaration-invalid");
    reveal_strlit("contracted.declaration-limit");
    reveal_strlit("contracted.registry-io");
    reveal_strlit("contracted.stale-artifact");
    reveal_strlit("contracted.unknown-module");
    reveal_strlit("contracted.unknown-symbol");
    reveal_strlit("dataflow.destination-forbidden");
    reveal_strlit("dataflow.exposed-private-field");
    reveal_strlit("dataflow.low-confidence-sensitive");
    reveal_strlit("dataflow.missing-approval");
    reveal_strlit("dataflow.missing-destination");
    reveal_strlit("dataflow.observed-incomplete");
    reveal_strlit("dataflow.tenant-crossing");
    reveal_strlit("dataflow.unknown-flow");
    reveal_strlit("diagnostics.registry-invalid");
    reveal_strlit("graph.input-invalid");
    reveal_strlit("graph.unknown-node");
    reveal_strlit("loader.import-cycle");
    reveal_strlit("loader.import-missing");
    reveal_strlit("loader.json-parse");
    assert("adapter.diagnostic-invalid"@.len() == 26);
    assert("classification.conflicting-kind"@.len() == 31);
    assert("classification.custody-ir"@.len() == 25);
    assert("classification.custody-model"@.len() == 28);
    assert("classification.custody-project"@.len() == 30);
    assert("classification.duplicate-subject"@.len() == 32);
    assert("classification.expired-declassification"@.len() == 39);
    assert("classification.invalid-declassification"@.len() == 39);
    assert("classification.kind-rule-missing"@.len() == 32);
    assert("classification.malformed-review-ref"@.len() == 35);
    assert("classification.missing-approval"@.len() == 31);
    assert("classification.policy-missing"@.len() == 29);
    assert("classification.self-approved"@.len() == 28);
    assert("classification.sink-ceiling-exceeded"@.len() == 36);
    assert("classification.unclassified-sensitive-sink"@.len() == 42);
    assert("classification.unknown-kind"@.len() == 27);
    assert("classification.unknown-subject"@.len() == 30);
    assert("cli.usage"@.len() == 9);
    assert("contracted.binding-drift"@.len() == 24);
    assert("contracted.coverage-missing"@.len() == 27);
    assert("contracted.declaration-invalid"@.len() == 30);
    assert("contracted.declaration-limit"@.len() == 28);
    assert("contracted.registry-io"@.len() == 22);
    assert("contracted.stale-artifact"@.len() == 25);
    assert("contracted.unknown-module"@.len() == 25);
    assert("contracted.unknown-symbol"@.len() == 25);
    assert("dataflow.destination-forbidden"@.len() == 30);
    assert("dataflow.exposed-private-field"@.len() == 30);
    assert("dataflow.low-confidence-sensitive"@.len() == 33);
    assert("dataflow.missing-approval"@.len() == 25);
    assert("dataflow.missing-destination"@.len() == 28);
    assert("dataflow.observed-incomplete"@.len() == 28);
    assert("dataflow.tenant-crossing"@.len() == 24);
    assert("dataflow.unknown-flow"@.len() == 21);
    assert("diagnostics.registry-invalid"@.len() == 28);
    assert("graph.input-invalid"@.len() == 19);
    assert("graph.unknown-node"@.len() == 18);
    assert("loader.import-cycle"@.len() == 19);
    assert("loader.import-missing"@.len() == 21);
    assert("loader.json-parse"@.len() == 17);
    let t = rule_table();
    assert(t[0].id != "loader.json-parse"@);
    assert(t[1].id != "loader.json-parse"@);
    assert(t[2].id != "loader.json-parse"@);
    assert(t[3].id != "loader.json-parse"@);
    assert(t[4].id != "loader.json-parse"@);
    assert(t[5].id != "loader.json-parse"@);
    assert(t[6].id != "loader.json-parse"@);
    assert(t[7].id != "loader.json-parse"@);
    assert(t[8].id != "loader.json-parse"@);
    assert(t[9].id != "loader.json-parse"@);
    assert(t[10].id != "loader.json-parse"@);
    assert(t[11].id != "loader.json-parse"@);
    assert(t[12].id != "loader.json-parse"@);
    assert(t[13].id != "loader.json-parse"@);
    assert(t[14].id != "loader.json-parse"@);
    assert(t[15].id != "loader.json-parse"@);
    assert(t[16].id != "loader.json-parse"@);
    assert(t[17].id != "loader.json-parse"@);
    assert(t[18].id != "loader.json-parse"@);
    assert(t[19].id != "loader.json-parse"@);
    assert(t[20].id != "loader.json-parse"@);
    assert(t[21].id != "loader.json-parse"@);
    assert(t[22].id != "loader.json-parse"@);
    assert(t[23].id != "loader.json-parse"@);
    assert(t[24].id != "loader.json-parse"@);
    assert(t[25].id != "loader.json-parse"@);
    assert(t[26].id != "loader.json-parse"@);
    assert(t[27].id != "loader.json-parse"@);
    assert(t[28].id != "loader.json-parse"@);
    assert(t[29].id != "loader.json-parse"@);
    assert(t[30].id != "loader.json-parse"@);
    assert(t[31].id != "loader.json-parse"@);
    assert(t[32].id != "loader.json-parse"@);
    assert(t[33].id != "loader.json-parse"@);
    assert(t[34].id != "loader.json-parse"@);
    assert(t[35].id != "loader.json-parse"@);
    assert(t[36].id != "loader.json-parse"@);
    assert(t[37].id != "loader.json-parse"@);
    assert(t[38].id != "loader.json-parse"@);
    assert(t[39] == rule_loader_json_parse());
    lemma_find_rule_at(t, "loader.json-parse"@, 39);
}
/// The registry version the crate embeds.
pub open spec fn embedded_version() -> Seq<char> {
    "0.4.0"@
}

/// The validated diagnostic rule registry.
#[derive(Clone, Debug, PartialEq, Eq)]
pub struct DiagnosticRegistry {
    registry_version: String,
    entries: Vec<RegistryEntry>,
}

impl View for DiagnosticRegistry {
    type V = (Seq<char>, Seq<RuleRow>);

    closed spec fn view(&self) -> (Seq<char>, Seq<RuleRow>) {
        (self.registry_version@, entries_view(self.entries@))
    }
}

impl DiagnosticRegistry {
    /// The embedded registry.
    pub fn embedded() -> (r: Result<DiagnosticRegistry, RegistryError>)
        ensures
            r matches Ok(reg) && reg@ == (embedded_version(), rule_table()),
    {
        Ok(DiagnosticRegistry { registry_version: "0.4.0".to_owned(), entries: embedded_entries() })
    }

    /// The registry version.
    pub fn registry_version(&self) -> (r: &str)
        ensures
            r@ == self@.0,
    {
        self.registry_version.as_str()
    }

    /// The row of one rule id.
    pub fn entry(&self, id: &str) -> (r: Option<&RegistryEntry>)
        ensures
            match r {
                Some(e) => find_rule(self@.1, id@) == Some(e@),
                None => find_rule(self@.1, id@) is None,
            },
    {
        let ghost rows = self@.1;
        let mut i: usize = 0;
        assert(rows.subrange(0, rows.len() as int) =~= rows);
        while i < self.entries.len()
            invariant
                i <= self.entries@.len(),
                rows == self@.1,
                rows.len() == self.entries@.len(),
                find_rule(rows, id@) == find_rule(rows.subrange(i as int, rows.len() as int), id@),
            decreases self.entries@.len() - i,
        {
            assert(rows.subrange(i as int, rows.len() as int).drop_first()
                =~= rows.subrange(i + 1, rows.len() as int));
            assert(rows[i as int] == self.entries@[i as int]@);
            if str_eq(self.entries[i].id.as_str(), id) {
                return Some(&self.entries[i]);
            }
            i = i + 1;
        }
        None
    }

    /// Every row, sorted by rule id.
    pub fn entries(&self) -> (r: &Vec<RegistryEntry>)
        ensures
            entries_view(r@) == self@.1,
    {
        &self.entries
    }

    /// The number of rows.
    pub fn len(&self) -> (r: usize)
        ensures
            r == self@.1.len(),
    {
        self.entries.len()
    }

    /// Whether the registry has no rows.
    pub fn is_empty(&self) -> (r: bool)
        ensures
            r == (self@.1.len() == 0),
    {
        self.entries.len() == 0
    }
}


/// Each registered id sorts strictly before the next one in the table.
proof fn lemma_rule_ids_ordered_0()
    ensures
        text_lt(rule_adapter_diagnostic_invalid().id, rule_classification_conflicting_kind().id),
{
    reveal_strlit("adapter.diagnostic-invalid");
    reveal_strlit("classification.conflicting-kind");
    reveal_with_fuel(text_lt, 40);
}

proof fn lemma_rule_ids_ordered_1()
    ensures
        text_lt(rule_classification_conflicting_kind().id, rule_classification_custody_ir().id),
{
    reveal_strlit("classification.conflicting-kind");
    reveal_strlit("classification.custody-ir");
    reveal_with_fuel(text_lt, 40);
}

proof fn lemma_rule_ids_ordered_2()
    ensures
        text_lt(rule_classification_custody_ir().id, rule_classification_custody_model().id),
{
    reveal_strlit("classification.custody-ir");
    reveal_strlit("classification.custody-model");
    reveal_with_fuel(text_lt, 40);
}

proof fn lemma_rule_ids_ordered_3()
    ensures
        text_lt(rule_classification_custody_model().id, rule_classification_custody_project().id),
{
    reveal_strlit("classification.custody-model");
    reveal_strlit("classification.custody-project");
    reveal_with_fuel(text_lt, 40);
}

proof fn lemma_rule_ids_ordered_4()
    ensures
        text_lt(rule_classification_custody_project().id, rule_classification_duplicate_subject().id),
{
    reveal_strlit("classification.custody-project");
    reveal_strlit("classification.duplicate-subject");
    reveal_with_fuel(text_lt, 40);
}

proof fn lemma_rule_ids_ordered_5()
    ensures
        text_lt(rule_classification_duplicate_subject().id, rule_classification_expired_declassification().id),
{
    reveal_strlit("classification.duplicate-subject");
    reveal_strlit("classification.expired-declassification");
    reveal_with_fuel(text_lt, 40);
}

proof fn lemma_rule_ids_ordered_6()
    ensures
        text_lt(rule_classification_expired_declassification().id, rule_classification_invalid_declassification().id),
{
    reveal_strlit("classification.expired-declassification");
    reveal_strlit("classification.invalid-declassification");
    reveal_with_fuel(text_lt, 40);
}

proof fn lemma_rule_ids_ordered_7()
    ensures
        text_lt(rule_classification_invalid_declassification().id, rule_classification_kind_rule_missing().id),
{
    reveal_strlit("classification.invalid-declassification");
    reveal_strlit("classification.kind-rule-missing");
    reveal_with_fuel(text_lt, 40);
}

proof fn lemma_rule_ids_ordered_8()
    ensures
        text_lt(rule_classification_kind_rule_missing().id, rule_classification_malformed_review_ref().id),
{
    reveal_strlit("classification.kind-rule-missing");
    reveal_strlit("classification.malformed-review-ref");
    reveal_with_fuel(text_lt, 40);
}

proof fn lemma_rule_ids_ordered_9()
    ensures
        text_lt(rule_classification_malformed_review_ref().id, rule_classification_missing_approval().id),
{
    reveal_strlit("classification.malformed-review-ref");
    reveal_strlit("classification.missing-approval");
    reveal_with_fuel(text_lt, 40);
}

proof fn lemma_rule_ids_ordered_10()
    ensures
        text_lt(rule_classification_missing_approval().id, rule_classification_policy_missing().id),
{
    reveal_strlit("classification.missing-approval");
    reveal_strlit("classification.policy-missing");
    reveal_with_fuel(text_lt, 40);
}

proof fn lemma_rule_ids_ordered_11()
    ensures
        text_lt(rule_classification_policy_missing().id, rule_classification_self_approved().id),
{
    reveal_strlit("classification.policy-missing");
    reveal_strlit("classification.self-approved");
    reveal_with_fuel(text_lt, 40);
}

proof fn lemma_rule_ids_ordered_12()
    ensures
        text_lt(rule_classification_self_approved().id, rule_classification_sink_ceiling_exceeded().id),
{
    reveal_strlit("classification.self-approved");
    reveal_strlit("classification.sink-ceiling-exceeded");
    reveal_with_fuel(text_lt, 40);
}

proof fn lemma_rule_ids_ordered_13()
    ensures
        text_lt(rule_classification_sink_ceiling_exceeded().id, rule_classification_unclassified_sensitive_sink().id),
{
    reveal_strlit("classification.sink-ceiling-exceeded");
    reveal_strlit("classification.unclassified-sensitive-sink");
    reveal_with_fuel(text_lt, 40);
}

proof fn lemma_rule_ids_ordered_14()
    ensures
        text_lt(rule_classification_unclassified_sensitive_sink().id, rule_classification_unknown_kind().id),
{
    reveal_strlit("classification.unclassified-sensitive-sink");
    reveal_strlit("classification.unknown-kind");
    reveal_with_fuel(text_lt, 40);
}

proof fn lemma_rule_ids_ordered_15()
    ensures
        text_lt(rule_classification_unknown_kind().id, rule_classification_unknown_subject().id),
{
    reveal_strlit("classification.unknown-kind");
    reveal_strlit("classification.unknown-subject");
    reveal_with_fuel(text_lt, 40);
}

proof fn lemma_rule_ids_ordered_16()
    ensures
        text_lt(rule_classification_unknown_subject().id, rule_cli_usage().id),
{
    reveal_strlit("classification.unknown-subject");
    reveal_strlit("cli.usage");
    reveal_with_fuel(text_lt, 40);
}

proof fn lemma_rule_ids_ordered_17()
    ensures
        text_lt(rule_cli_usage().id, rule_contracted_binding_drift().id),
{
    reveal_strlit("cli.usage");
    reveal_strlit("contracted.binding-drift");
    reveal_with_fuel(text_lt, 40);
}

proof fn lemma_rule_ids_ordered_18()
    ensures
        text_lt(rule_contracted_binding_drift().id, rule_contracted_coverage_missing().id),
{
    reveal_strlit("contracted.binding-drift");
    reveal_strlit("contracted.coverage-missing");
    reveal_with_fuel(text_lt, 40);
}

proof fn lemma_rule_ids_ordered_19()
    ensures
        text_lt(rule_contracted_coverage_missing().id, rule_contracted_declaration_invalid().id),
{
    reveal_strlit("contracted.coverage-missing");
    reveal_strlit("contracted.declaration-invalid");
    reveal_with_fuel(text_lt, 40);
}

proof fn lemma_rule_ids_ordered_20()
    ensures
        text_lt(rule_contracted_declaration_invalid().id, rule_contracted_declaration_limit().id),
{
    reveal_strlit("contracted.declaration-invalid");
    reveal_strlit("contracted.declaration-limit");
    reveal_with_fuel(text_lt, 40);
}

proof fn lemma_rule_ids_ordered_21()
    ensures
        text_lt(rule_contracted_declaration_limit().id, rule_contracted_registry_io().id),
{
    reveal_strlit("contracted.declaration-limit");
    reveal_strlit("contracted.registry-io");
    reveal_with_fuel(text_lt, 40);
}

proof fn lemma_rule_ids_ordered_22()
    ensures
        text_lt(rule_contracted_registry_io().id, rule_contracted_stale_artifact().id),
{
    reveal_strlit("contracted.registry-io");
    reveal_strlit("contracted.stale-artifact");
    reveal_with_fuel(text_lt, 40);
}

proof fn lemma_rule_ids_ordered_23()
    ensures
        text_lt(rule_contracted_stale_artifact().id, rule_contracted_unknown_module().id),
{
    reveal_strlit("contracted.stale-artifact");
    reveal_strlit("contracted.unknown-module");
    reveal_with_fuel(text_lt, 40);
}

proof fn lemma_rule_ids_ordered_24()
    ensures
        text_lt(rule_contracted_unknown_module().id, rule_contracted_unknown_symbol().id),
{
    reveal_strlit("contracted.unknown-module");
    reveal_strlit("contracted.unknown-symbol");
    reveal_with_fuel(text_lt, 40);
}

proof fn lemma_rule_ids_ordered_25()
    ensures
        text_lt(rule_contracted_unknown_symbol().id, rule_dataflow_destination_forbidden().id),
{
    reveal_strlit("contracted.unknown-symbol");
    reveal_strlit("dataflow.destination-forbidden");
    reveal_with_fuel(text_lt, 40);
}

proof fn lemma_rule_ids_ordered_26()
    ensures
        text_lt(rule_dataflow_destination_forbidden().id, rule_dataflow_exposed_private_field().id),
{
    reveal_strlit("dataflow.destination-forbidden");
    reveal_strlit("dataflow.exposed-private-field");
    reveal_with_fuel(text_lt, 40);
}

proof fn lemma_rule_ids_ordered_27()
    ensures
        text_lt(rule_dataflow_exposed_private_field().id, rule_dataflow_low_confidence_sensitive().id),
{
    reveal_strlit("dataflow.exposed-private-field");
    reveal_strlit("dataflow.low-confidence-sensitive");
    reveal_with_fuel(text_lt, 40);
}

proof fn lemma_rule_ids_ordered_28()
    ensures
        text_lt(rule_dataflow_low_confidence_sensitive().id, rule_dataflow_missing_approval().id),
{
    reveal_strlit("dataflow.low-confidence-sensitive");
    reveal_strlit("dataflow.missing-approval");
    reveal_with_fuel(text_lt, 40);
}

proof fn lemma_rule_ids_ordered_29()
    ensures
        text_lt(rule_dataflow_missing_approval().id, rule_dataflow_missing_destination().id),
{
    reveal_strlit("dataflow.missing-approval");
    reveal_strlit("dataflow.missing-destination");
    reveal_with_fuel(text_lt, 40);
}

proof fn lemma_rule_ids_ordered_30()
    ensures
        text_lt(rule_dataflow_missing_destination().id, rule_dataflow_observed_incomplete().id),
{
    reveal_strlit("dataflow.missing-destination");
    reveal_strlit("dataflow.observed-incomplete");
    reveal_with_fuel(text_lt, 40);
}

proof fn lemma_rule_ids_ordered_31()
    ensures
        text_lt(rule_dataflow_observed_incomplete().id, rule_dataflow_tenant_crossing().id),
{
    reveal_strlit("dataflow.observed-incomplete");
    reveal_strlit("dataflow.tenant-crossing");
    reveal_with_fuel(text_lt, 40);
}

proof fn lemma_rule_ids_ordered_32()
    ensures
        text_lt(rule_dataflow_tenant_crossing().id, rule_dataflow_unknown_flow().id),
{
    reveal_strlit("dataflow.tenant-crossing");
    reveal_strlit("dataflow.unknown-flow");
    reveal_with_fuel(text_lt, 40);
}

proof fn lemma_rule_ids_ordered_33()
    ensures
        text_lt(rule_dataflow_unknown_flow().id, rule_diagnostics_registry_invalid().id),
{
    reveal_strlit("dataflow.unknown-flow");
    reveal_strlit("diagnostics.registry-invalid");
    reveal_with_fuel(text_lt, 40);
}

proof fn lemma_rule_ids_ordered_34()
    ensures
        text_lt(rule_diagnostics_registry_invalid().id, rule_graph_input_invalid().id),
{
    reveal_strlit("diagnostics.registry-invalid");
    reveal_strlit("graph.input-invalid");
    reveal_with_fuel(text_lt, 40);
}

proof fn lemma_rule_ids_ordered_35()
    ensures
        text_lt(rule_graph_input_invalid().id, rule_graph_unknown_node().id),
{
    reveal_strlit("graph.input-invalid");
    reveal_strlit("graph.unknown-node");
    reveal_with_fuel(text_lt, 40);
}

proof fn lemma_rule_ids_ordered_36()
    ensures
        text_lt(rule_graph_unknown_node().id, rule_loader_import_cycle().id),
{
    reveal_strlit("graph.unknown-node");
    reveal_strlit("loader.import-cycle");
    reveal_with_fuel(text_lt, 40);
}

proof fn lemma_rule_ids_ordered_37()
    ensures
        text_lt(rule_loader_import_cycle().id, rule_loader_import_missing().id),
{
    reveal_strlit("loader.import-cycle");
    reveal_strlit("loader.import-missing");
    reveal_with_fuel(text_lt, 40);
}

proof fn lemma_rule_ids_ordered_38()
    ensures
        text_lt(rule_loader_import_missing().id, rule_loader_json_parse().id),
{
    reveal_strlit("loader.import-missing");
    reveal_strlit("loader.json-parse");
    reveal_with_fuel(text_lt, 40);
}

/// Adjacent strictly increasing texts are strictly increasing throughout.
proof fn lemma_chain_sorted(s: Seq<Seq<char>>)
    requires
        forall|i: int| 0 <= i < s.len() - 1 ==> text_lt(#[trigger] s[i], s[i + 1]),
    ensures
        forall|i: int, j: int| 0 <= i < j < s.len() ==> text_lt(#[trigger] s[i], #[trigger] s[j]),
    decreases s.len(),
{
    if s.len() > 1 {
        let t = s.drop_last();
        assert forall|i: int| 0 <= i < t.len() - 1 implies text_lt(#[trigger] t[i], t[i + 1]) by {
            assert(t[i] == s[i] && t[i + 1] == s[i + 1]);
        }
        lemma_chain_sorted(t);
        assert forall|i: int, j: int| 0 <= i < j < s.len() implies text_lt(#[trigger] s[i], #[trigger] s[j]) by {
            if j < s.len() - 1 {
                assert(t[i] == s[i] && t[j] == s[j]);
            } else if i < j - 1 {
                assert(t[i] == s[i] && t[j - 1] == s[j - 1]);
                assert(text_lt(s[j - 1], s[j]));
                crate::text::lemma_text_lt_transitive(s[i], s[j - 1], s[j]);
            }
        }
    }
}

/// The registry lists its rules in strictly increasing byte order of
/// their ids; no id is registered twice.
pub proof fn lemma_rule_ids_strictly_sorted()
    ensures
        forall|i: int, j: int| 0 <= i < j < rule_table().len()
            ==> text_lt(#[trigger] rule_table()[i].id, #[trigger] rule_table()[j].id),
{
    lemma_rule_ids_ordered_0();
    lemma_rule_ids_ordered_1();
    lemma_rule_ids_ordered_2();
    lemma_rule_ids_ordered_3();
    lemma_rule_ids_ordered_4();
    lemma_rule_ids_ordered_5();
    lemma_rule_ids_ordered_6();
    lemma_rule_ids_ordered_7();
    lemma_rule_ids_ordered_8();
    lemma_rule_ids_ordered_9();
    lemma_rule_ids_ordered_10();
    lemma_rule_ids_ordered_11();
    lemma_rule_ids_ordered_12();
    lemma_rule_ids_ordered_13();
    lemma_rule_ids_ordered_14();
    lemma_rule_ids_ordered_15();
    lemma_rule_ids_ordered_16();
    lemma_rule_ids_ordered_17();
    lemma_rule_ids_ordered_18();
    lemma_rule_ids_ordered_19();
    lemma_rule_ids_ordered_20();
    lemma_rule_ids_ordered_21();
    lemma_rule_ids_ordered_22();
    lemma_rule_ids_ordered_23();
    lemma_rule_ids_ordered_24();
    lemma_rule_ids_ordered_25();
    lemma_rule_ids_ordered_26();
    lemma_rule_ids_ordered_27();
    lemma_rule_ids_ordered_28();
    lemma_rule_ids_ordered_29();
    lemma_rule_ids_ordered_30();
    lemma_rule_ids_ordered_31();
    lemma_rule_ids_ordered_32();
    lemma_rule_ids_ordered_33();
    lemma_rule_ids_ordered_34();
    lemma_rule_ids_ordered_35();
    lemma_rule_ids_ordered_36();
    lemma_rule_ids_ordered_37();
    lemma_rule_ids_ordered_38();
    let ids = rule_table().map_values(|r: RuleRow| r.id);
    assert(ids[0] == rule_adapter_diagnostic_invalid().id);
    assert(ids[1] == rule_classification_conflicting_kind().id);
    assert(ids[2] == rule_classification_custody_ir().id);
    assert(ids[3] == rule_classification_custody_model().id);
    assert(ids[4] == rule_classification_custody_project().id);
    assert(ids[5] == rule_classification_duplicate_subject().id);
    assert(ids[6] == rule_classification_expired_declassification().id);
    assert(ids[7] == rule_classification_invalid_declassification().id);
    assert(ids[8] == rule_classification_kind_rule_missing().id);
    assert(ids[9] == rule_classification_malformed_review_ref().id);
    assert(ids[10] == rule_classification_missing_approval().id);
    assert(ids[11] == rule_classification_policy_missing().id);
    assert(ids[12] == rule_classification_self_approved().id);
    assert(ids[13] == rule_classification_sink_ceiling_exceeded().id);
    assert(ids[14] == rule_classification_unclassified_sensitive_sink().id);
    assert(ids[15] == rule_classification_unknown_kind().id);
    assert(ids[16] == rule_classification_unknown_subject().id);
    assert(ids[17] == rule_cli_usage().id);
    assert(ids[18] == rule_contracted_binding_drift().id);
    assert(ids[19] == rule_contracted_coverage_missing().id);
    assert(ids[20] == rule_contracted_declaration_invalid().id);
    assert(ids[21] == rule_contracted_declaration_limit().id);
    assert(ids[22] == rule_contracted_registry_io().id);
    assert(ids[23] == rule_contracted_stale_artifact().id);
    assert(ids[24] == rule_contracted_unknown_module().id);
    assert(ids[25] == rule_contracted_unknown_symbol().id);
    assert(ids[26] == rule_dataflow_destination_forbidden().id);
    assert(ids[27] == rule_dataflow_exposed_private_field().id);
    assert(ids[28] == rule_dataflow_low_confidence_sensitive().id);
    assert(ids[29] == rule_dataflow_missing_approval().id);
    assert(ids[30] == rule_dataflow_missing_destination().id);
    assert(ids[31] == rule_dataflow_observed_incomplete().id);
    assert(ids[32] == rule_dataflow_tenant_crossing().id);
    assert(ids[33] == rule_dataflow_unknown_flow().id);
    assert(ids[34] == rule_diagnostics_registry_invalid().id);
    assert(ids[35] == rule_graph_input_invalid().id);
    assert(ids[36] == rule_graph_unknown_node().id);
    assert(ids[37] == rule_loader_import_cycle().id);
    assert(ids[38] == rule_loader_import_missing().id);
    assert(ids[39] == rule_loader_json_parse().id);
    assert forall|i: int| 0 <= i < ids.len() - 1 implies text_lt(#[trigger] ids[i], ids[i + 1]) by {
        if i == 0 { assert(text_lt(ids[0], ids[1])); }
        if i == 1 { assert(text_lt(ids[1], ids[2])); }
        if i == 2 { assert(text_lt(ids[2], ids[3])); }
        if i == 3 { assert(text_lt(ids[3], ids[4])); }
        if i == 4 { assert(text_lt(ids[4], ids[5])); }
        if i == 5 { assert(text_lt(ids[5], ids[6])); }
        if i == 6 { assert(text_lt(ids[6], ids[7])); }
        if i == 7 { assert(text_lt(ids[7], ids[8])); }
        if i == 8 { assert(text_lt(ids[8], ids[9])); }
        if i == 9 { assert(text_lt(ids[9], ids[10])); }
        if i == 10 { assert(text_lt(ids[10], ids[11])); }
        if i == 11 { assert(text_lt(ids[11], ids[12])); }
        if i == 12 { assert(text_lt(ids[12], ids[13])); }
        if i == 13 { assert(text_lt(ids[13], ids[14])); }
        if i == 14 { assert(text_lt(ids[14], ids[15])); }
        if i == 15 { assert(text_lt(ids[15], ids[16])); }
        if i == 16 { assert(text_lt(ids[16], ids[17])); }
        if i == 17 { assert(text_lt(ids[17], ids[18])); }
        if i == 18 { assert(text_lt(ids[18], ids[19])); }
        if i == 19 { assert(text_lt(ids[19], ids[20])); }
        if i == 20 { assert(text_lt(ids[20], ids[21])); }
        if i == 21 { assert(text_lt(ids[21], ids[22])); }
        if i == 22 { assert(text_lt(ids[22], ids[23])); }
        if i == 23 { assert(text_lt(ids[23], ids[24])); }
        if i == 24 { assert(text_lt(ids[24], ids[25])); }
        if i == 25 { assert(text_lt(ids[25], ids[26])); }
        if i == 26 { assert(text_lt(ids[26], ids[27])); }
        if i == 27 { assert(text_lt(ids[27], ids[28])); }
        if i == 28 { assert(text_lt(ids[28], ids[29])); }
        if i == 29 { assert(text_lt(ids[29], ids[30])); }
        if i == 30 { assert(text_lt(ids[30], ids[31])); }
        if i == 31 { assert(text_lt(ids[31], ids[32])); }
        if i == 32 { assert(text_lt(ids[32], ids[33])); }
        if i == 33 { assert(text_lt(ids[33], ids[34])); }
        if i == 34 { assert(text_lt(ids[34], ids[35])); }
        if i == 35 { assert(text_lt(ids[35], ids[36])); }
        if i == 36 { assert(text_lt(ids[36], ids[37])); }
        if i == 37 { assert(text_lt(ids[37], ids[38])); }
        if i == 38 { assert(text_lt(ids[38], ids[39])); }
    }
    lemma_chain_sorted(ids);
    assert forall|i: int, j: int| 0 <= i < j < rule_table().len()
        implies text_lt(#[trigger] rule_table()[i].id, #[trigger] rule_table()[j].id) by {
        assert(ids[i] == rule_table()[i].id && ids[j] == rule_table()[j].id);
    }
}


/// The registered codes in byte order.
spec fn codes_in_order() -> Seq<Seq<char>> {
    seq![
        "LEK-ADP-001"@,
        "LEK-CLI-001"@,
        "LEK-CLS-001"@,
        "LEK-CLS-002"@,
        "LEK-CLS-003"@,
        "LEK-CLS-004"@,
        "LEK-CLS-005"@,
        "LEK-CLS-006"@,
        "LEK-CLS-007"@,
        "LEK-CLS-008"@,
        "LEK-CLS-009"@,
        "LEK-CLS-010"@,
        "LEK-CLS-011"@,
        "LEK-CLS-012"@,
        "LEK-CLS-013"@,
        "LEK-CLS-014"@,
        "LEK-CLS-015"@,
        "LEK-CLS-016"@,
        "LEK-CTR-001"@,
        "LEK-CTR-002"@,
        "LEK-CTR-003"@,
        "LEK-CTR-004"@,
        "LEK-CTR-005"@,
        "LEK-CTR-006"@,
        "LEK-CTR-007"@,
        "LEK-CTR-008"@,
        "LEK-DFL-001"@,
        "LEK-DFL-002"@,
        "LEK-DFL-003"@,
        "LEK-DFL-004"@,
        "LEK-DFL-005"@,
        "LEK-DFL-006"@,
        "LEK-DFL-007"@,
        "LEK-DFL-008"@,
        "LEK-DIAG-001"@,
        "LEK-GRA-001"@,
        "LEK-GRA-003"@,
        "LEK-LOAD-001"@,
        "LEK-LOAD-008"@,
        "LEK-LOAD-010"@,
    ]
}

/// Where each row's code stands in byte order.
spec fn code_rank() -> Seq<int> {
    seq![0, 5, 16, 15, 14, 4, 8, 6, 11, 17, 7, 10, 9, 12, 13, 2, 3, 1, 23, 25, 18, 19, 22, 24, 20, 21, 31, 33, 27, 30, 29, 32, 28, 26, 34, 35, 36, 38, 39, 37]
}

proof fn lemma_codes_ordered_0()
    ensures
        text_lt(codes_in_order()[0], codes_in_order()[1]),
{
    reveal_strlit("LEK-ADP-001");
    reveal_strlit("LEK-CLI-001");
    reveal_with_fuel(text_lt, 12);
}

proof fn lemma_codes_ordered_1()
    ensures
        text_lt(codes_in_order()[1], codes_in_order()[2]),
{
    reveal_strlit("LEK-CLI-001");
    reveal_strlit("LEK-CLS-001");
    reveal_with_fuel(text_lt, 12);
}

proof fn lemma_codes_ordered_2()
    ensures
        text_lt(codes_in_order()[2], codes_in_order()[3]),
{
    reveal_strlit("LEK-CLS-001");
    reveal_strlit("LEK-CLS-002");
    reveal_with_fuel(text_lt, 12);
}

proof fn lemma_codes_ordered_3()
    ensures
        text_lt(codes_in_order()[3], codes_in_order()[4]),
{
    reveal_strlit("LEK-CLS-002");
    reveal_strlit("LEK-CLS-003");
    reveal_with_fuel(text_lt, 12);
}

proof fn lemma_codes_ordered_4()
    ensures
        text_lt(codes_in_order()[4], codes_in_order()[5]),
{
    reveal_strlit("LEK-CLS-003");
    reveal_strlit("LEK-CLS-004");
    reveal_with_fuel(text_lt, 12);
}

proof fn lemma_codes_ordered_5()
    ensures
        text_lt(codes_in_order()[5], codes_in_order()[6]),
{
    reveal_strlit("LEK-CLS-004");
    reveal_strlit("LEK-CLS-005");
    reveal_with_fuel(text_lt, 12);
}

proof fn lemma_codes_ordered_6()
    ensures
        text_lt(codes_in_order()[6], codes_in_order()[7]),
{
    reveal_strlit("LEK-CLS-005");
    reveal_strlit("LEK-CLS-006");
    reveal_with_fuel(text_lt, 12);
}

proof fn lemma_codes_ordered_7()
    ensures
        text_lt(codes_in_order()[7], codes_in_order()[8]),
{
    reveal_strlit("LEK-CLS-006");
    reveal_strlit("LEK-CLS-007");
    reveal_with_fuel(text_lt, 12);
}

proof fn lemma_codes_ordered_8()
    ensures
        text_lt(codes_in_order()[8], codes_in_order()[9]),
{
    reveal_strlit("LEK-CLS-007");
    reveal_strlit("LEK-CLS-008");
    reveal_with_fuel(text_lt, 12);
}

proof fn lemma_codes_ordered_9()
    ensures
        text_lt(codes_in_order()[9], codes_in_order()[10]),
{
    reveal_strlit("LEK-CLS-008");
    reveal_strlit("LEK-CLS-009");
    reveal_with_fuel(text_lt, 12);
}

proof fn lemma_codes_ordered_10()
    ensures
        text_lt(codes_in_order()[10], codes_in_order()[11]),
{
    reveal_strlit("LEK-CLS-009");
    reveal_strlit("LEK-CLS-010");
    reveal_with_fuel(text_lt, 12);
}

proof fn lemma_codes_ordered_11()
    ensures
        text_lt(codes_in_order()[11], codes_in_order()[12]),
{
    reveal_strlit("LEK-CLS-010");
    reveal_strlit("LEK-CLS-011");
    reveal_with_fuel(text_lt, 12);
}

proof fn lemma_codes_ordered_12()
    ensures
        text_lt(codes_in_order()[12], codes_in_order()[13]),
{
    reveal_strlit("LEK-CLS-011");
    reveal_strlit("LEK-CLS-012");
    reveal_with_fuel(text_lt, 12);
}

proof fn lemma_codes_ordered_13()
    ensures
        text_lt(codes_in_order()[13], codes_in_order()[14]),
{
    reveal_strlit("LEK-CLS-012");
    reveal_strlit("LEK-CLS-013");
    reveal_with_fuel(text_lt, 12);
}

proof fn lemma_codes_ordered_14()
    ensures
        text_lt(codes_in_order()[14], codes_in_order()[15]),
{
    reveal_strlit("LEK-CLS-013");
    reveal_strlit("LEK-CLS-014");
    reveal_with_fuel(text_lt, 12);
}

proof fn lemma_codes_ordered_15()
    ensures
        text_lt(codes_in_order()[15], codes_in_order()[16]),
{
    reveal_strlit("LEK-CLS-014");
    reveal_strlit("LEK-CLS-015");
    reveal_with_fuel(text_lt, 12);
}

proof fn lemma_codes_ordered_16()
    ensures
        text_lt(codes_in_order()[16], codes_in_order()[17]),
{
    reveal_strlit("LEK-CLS-015");
    reveal_strlit("LEK-CLS-016");
    reveal_with_fuel(text_lt, 12);
}

proof fn lemma_codes_ordered_17()
    ensures
        text_lt(codes_in_order()[17], codes_in_order()[18]),
{
    reveal_strlit("LEK-CLS-016");
    reveal_strlit("LEK-CTR-001");
    reveal_with_fuel(text_lt, 12);
}

proof fn lemma_codes_ordered_18()
    ensures
        text_lt(codes_in_order()[18], codes_in_order()[19]),
{
    reveal_strlit("LEK-CTR-001");
    reveal_strlit("LEK-CTR-002");
    reveal_with_fuel(text_lt, 12);
}

proof fn lemma_codes_ordered_19()
    ensures
        text_lt(codes_in_order()[19], codes_in_order()[20]),
{
    reveal_strlit("LEK-CTR-002");
    reveal_strlit("LEK-CTR-003");
    reveal_with_fuel(text_lt, 12);
}

proof fn lemma_codes_ordered_20()
    ensures
        text_lt(codes_in_order()[20], codes_in_order()[21]),
{
    reveal_strlit("LEK-CTR-003");
    reveal_strlit("LEK-CTR-004");
    reveal_with_fuel(text_lt, 12);
}

proof fn lemma_codes_ordered_21()
    ensures
        text_lt(codes_in_order()[21], codes_in_order()[22]),
{
    reveal_strlit("LEK-CTR-004");
    reveal_strlit("LEK-CTR-005");
    reveal_with_fuel(text_lt, 12);
}

proof fn lemma_codes_ordered_22()
    ensures
        text_lt(codes_in_order()[22], codes_in_order()[23]),
{
    reveal_strlit("LEK-CTR-005");
    reveal_strlit("LEK-CTR-006");
    reveal_with_fuel(text_lt, 12);
}

proof fn lemma_codes_ordered_23()
    ensures
        text_lt(codes_in_order()[23], codes_in_order()[24]),
{
    reveal_strlit("LEK-CTR-006");
    reveal_strlit("LEK-CTR-007");
    reveal_with_fuel(text_lt, 12);
}

proof fn lemma_codes_ordered_24()
    ensures
        text_lt(codes_in_order()[24], codes_in_order()[25]),
{
    reveal_strlit("LEK-CTR-007");
    reveal_strlit("LEK-CTR-008");
    reveal_with_fuel(text_lt, 12);
}

proof fn lemma_codes_ordered_25()
    ensures
        text_lt(codes_in_order()[25], codes_in_order()[26]),
{
    reveal_strlit("LEK-CTR-008");
    reveal_strlit("LEK-DFL-001");
    reveal_with_fuel(text_lt, 12);
}

proof fn lemma_codes_ordered_26()
    ensures
        text_lt(codes_in_order()[26], codes_in_order()[27]),
{
    reveal_strlit("LEK-DFL-001");
    reveal_strlit("LEK-DFL-002");
    reveal_with_fuel(text_lt, 12);
}

proof fn lemma_codes_ordered_27()
    ensures
        text_lt(codes_in_order()[27], codes_in_order()[28]),
{
    reveal_strlit("LEK-DFL-002");
    reveal_strlit("LEK-DFL-003");
    reveal_with_fuel(text_lt, 12);
}

proof fn lemma_codes_ordered_28()
    ensures
        text_lt(codes_in_order()[28], codes_in_order()[29]),
{
    reveal_strlit("LEK-DFL-003");
    reveal_strlit("LEK-DFL-004");
    reveal_with_fuel(text_lt, 12);
}

proof fn lemma_codes_ordered_29()
    ensures
        text_lt(codes_in_order()[29], codes_in_order()[30]),
{
    reveal_strlit("LEK-DFL-004");
    reveal_strlit("LEK-DFL-005");
    reveal_with_fuel(text_lt, 12);
}

proof fn lemma_codes_ordered_30()
    ensures
        text_lt(codes_in_order()[30], codes_in_order()[31]),
{
    reveal_strlit("LEK-DFL-005");
    reveal_strlit("LEK-DFL-006");
    reveal_with_fuel(text_lt, 12);
}

proof fn lemma_codes_ordered_31()
    ensures
        text_lt(codes_in_order()[31], codes_in_order()[32]),
{
    reveal_strlit("LEK-DFL-006");
    reveal_strlit("LEK-DFL-007");
    reveal_with_fuel(text_lt, 12);
}

proof fn lemma_codes_ordered_32()
    ensures
        text_lt(codes_in_order()[32], codes_in_order()[33]),
{
    reveal_strlit("LEK-DFL-007");
    reveal_strlit("LEK-DFL-008");
    reveal_with_fuel(text_lt, 12);
}

proof fn lemma_codes_ordered_33()
    ensures
        text_lt(codes_in_order()[33], codes_in_order()[34]),
{
    reveal_strlit("LEK-DFL-008");
    reveal_strlit("LEK-DIAG-001");
    reveal_with_fuel(text_lt, 12);
}

proof fn lemma_codes_ordered_34()
    ensures
        text_lt(codes_in_order()[34], codes_in_order()[35]),
{
    reveal_strlit("LEK-DIAG-001");
    reveal_strlit("LEK-GRA-001");
    reveal_with_fuel(text_lt, 12);
}

proof fn lemma_codes_ordered_35()
    ensures
        text_lt(codes_in_order()[35], codes_in_order()[36]),
{
    reveal_strlit("LEK-GRA-001");
    reveal_strlit("LEK-GRA-003");
    reveal_with_fuel(text_lt, 12);
}

proof fn lemma_codes_ordered_36()
    ensures
        text_lt(codes_in_order()[36], codes_in_order()[37]),
{
    reveal_strlit("LEK-GRA-003");
    reveal_strlit("LEK-LOAD-001");
    reveal_with_fuel(text_lt, 12);
}

proof fn lemma_codes_ordered_37()
    ensures
        text_lt(codes_in_order()[37], codes_in_order()[38]),
{
    reveal_strlit("LEK-LOAD-001");
    reveal_strlit("LEK-LOAD-008");
    reveal_with_fuel(text_lt, 12);
}

proof fn lemma_codes_ordered_38()
    ensures
        text_lt(codes_in_order()[38], codes_in_order()[39]),
{
    reveal_strlit("LEK-LOAD-008");
    reveal_strlit("LEK-LOAD-010");
    reveal_with_fuel(text_lt, 12);
}

/// No two registered rules share a code.
pub proof fn lemma_rule_codes_unique()
    ensures
        forall|i: int, j: int| 0 <= i < j < rule_table().len() ==> #[trigger] rule_table()[i].code != #[trigger] rule_table()[j].code,
{
    lemma_codes_ordered_0();
    lemma_codes_ordered_1();
    lemma_codes_ordered_2();
    lemma_codes_ordered_3();
    lemma_codes_ordered_4();
    lemma_codes_ordered_5();
    lemma_codes_ordered_6();
    lemma_codes_ordered_7();
    lemma_codes_ordered_8();
    lemma_codes_ordered_9();
    lemma_codes_ordered_10();
    lemma_codes_ordered_11();
    lemma_codes_ordered_12();
    lemma_codes_ordered_13();
    lemma_codes_ordered_14();
    lemma_codes_ordered_15();
    lemma_codes_ordered_16();
    lemma_codes_ordered_17();
    lemma_codes_ordered_18();
    lemma_codes_ordered_19();
    lemma_codes_ordered_20();
    lemma_codes_ordered_21();
    lemma_codes_ordered_22();
    lemma_codes_ordered_23();
    lemma_codes_ordered_24();
    lemma_codes_ordered_25();
    lemma_codes_ordered_26();
    lemma_codes_ordered_27();
    lemma_codes_ordered_28();
    lemma_codes_ordered_29();
    lemma_codes_ordered_30();
    lemma_codes_ordered_31();
    lemma_codes_ordered_32();
    lemma_codes_ordered_33();
    lemma_codes_ordered_34();
    lemma_codes_ordered_35();
    lemma_codes_ordered_36();
    lemma_codes_ordered_37();
    lemma_codes_ordered_38();
    let sc = codes_in_order();
    let rank = code_rank();
    assert forall|i: int| 0 <= i < sc.len() - 1 implies text_lt(#[trigger] sc[i], sc[i + 1]) by {
        if i == 0 { assert(text_lt(sc[0], sc[1])); }
        if i == 1 { assert(text_lt(sc[1], sc[2])); }
        if i == 2 { assert(text_lt(sc[2], sc[3])); }
        if i == 3 { assert(text_lt(sc[3], sc[4])); }
        if i == 4 { assert(text_lt(sc[4], sc[5])); }
        if i == 5 { assert(text_lt(sc[5], sc[6])); }
        if i == 6 { assert(text_lt(sc[6], sc[7])); }
        if i == 7 { assert(text_lt(sc[7], sc[8])); }
        if i == 8 { assert(text_lt(sc[8], sc[9])); }
        if i == 9 { assert(text_lt(sc[9], sc[10])); }
        if i == 10 { assert(text_lt(sc[10], sc[11])); }
        if i == 11 { assert(text_lt(sc[11], sc[12])); }
        if i == 12 { assert(text_lt(sc[12], sc[13])); }
        if i == 13 { assert(text_lt(sc[13], sc[14])); }
        if i == 14 { assert(text_lt(sc[14], sc[15])); }
        if i == 15 { assert(text_lt(sc[15], sc[16])); }
        if i == 16 { assert(text_lt(sc[16], sc[17])); }
        if i == 17 { assert(text_lt(sc[17], sc[18])); }
        if i == 18 { assert(text_lt(sc[18], sc[19])); }
        if i == 19 { assert(text_lt(sc[19], sc[20])); }
        if i == 20 { assert(text_lt(sc[20], sc[21])); }
        if i == 21 { assert(text_lt(sc[21], sc[22])); }
        if i == 22 { assert(text_lt(sc[22], sc[23])); }
        if i == 23 { assert(text_lt(sc[23], sc[24])); }
        if i == 24 { assert(text_lt(sc[24], sc[25])); }
        if i == 25 { assert(text_lt(sc[25], sc[26])); }
        if i == 26 { assert(text_lt(sc[26], sc[27])); }
        if i == 27 { assert(text_lt(sc[27], sc[28])); }
        if i == 28 { assert(text_lt(sc[28], sc[29])); }
        if i == 29 { assert(text_lt(sc[29], sc[30])); }
        if i == 30 { assert(text_lt(sc[30], sc[31])); }
        if i == 31 { assert(text_lt(sc[31], sc[32])); }
        if i == 32 { assert(text_lt(sc[32], sc[33])); }
        if i == 33 { assert(text_lt(sc[33], sc[34])); }
        if i == 34 { assert(text_lt(sc[34], sc[35])); }
        if i == 35 { assert(text_lt(sc[35], sc[36])); }
        if i == 36 { assert(text_lt(sc[36], sc[37])); }
        if i == 37 { assert(text_lt(sc[37], sc[38])); }
        if i == 38 { assert(text_lt(sc[38], sc[39])); }
    }
    lemma_chain_sorted(sc);
    assert(rule_table()[0].code == codes_in_order()[0]);
    assert(rule_table()[1].code == codes_in_order()[5]);
    assert(rule_table()[2].code == codes_in_order()[16]);
    assert(rule_table()[3].code == codes_in_order()[15]);
    assert(rule_table()[4].code == codes_in_order()[14]);
    assert(rule_table()[5].code == codes_in_order()[4]);
    assert(rule_table()[6].code == codes_in_order()[8]);
    assert(rule_table()[7].code == codes_in_order()[6]);
    assert(rule_table()[8].code == codes_in_order()[11]);
    assert(rule_table()[9].code == codes_in_order()[17]);
    assert(rule_table()[10].code == codes_in_order()[7]);
    assert(rule_table()[11].code == codes_in_order()[10]);
    assert(rule_table()[12].code == codes_in_order()[9]);
    assert(rule_table()[13].code == codes_in_order()[12]);
    assert(rule_table()[14].code == codes_in_order()[13]);
    assert(rule_table()[15].code == codes_in_order()[2]);
    assert(rule_table()[16].code == codes_in_order()[3]);
    assert(rule_table()[17].code == codes_in_order()[1]);
    assert(rule_table()[18].code == codes_in_order()[23]);
    assert(rule_table()[19].code == codes_in_order()[25]);
    assert(rule_table()[20].code == codes_in_order()[18]);
    assert(rule_table()[21].code == codes_in_order()[19]);
    assert(rule_table()[22].code == codes_in_order()[22]);
    assert(rule_table()[23].code == codes_in_order()[24]);
    assert(rule_table()[24].code == codes_in_order()[20]);
    assert(rule_table()[25].code == codes_in_order()[21]);
    assert(rule_table()[26].code == codes_in_order()[31]);
    assert(rule_table()[27].code == codes_in_order()[33]);
    assert(rule_table()[28].code == codes_in_order()[27]);
    assert(rule_table()[29].code == codes_in_order()[30]);
    assert(rule_table()[30].code == codes_in_order()[29]);
    assert(rule_table()[31].code == codes_in_order()[32]);
    assert(rule_table()[32].code == codes_in_order()[28]);
    assert(rule_table()[33].code == codes_in_order()[26]);
    assert(rule_table()[34].code == codes_in_order()[34]);
    assert(rule_table()[35].code == codes_in_order()[35]);
    assert(rule_table()[36].code == codes_in_order()[36]);
    assert(rule_table()[37].code == codes_in_order()[38]);
    assert(rule_table()[38].code == codes_in_order()[39]);
    assert(rule_table()[39].code == codes_in_order()[37]);
    assert forall|i: int| 0 <= i < rule_table().len() implies 0 <= #[trigger] rank[i] < sc.len() && rule_table()[i].code == sc[rank[i]] by {
        if i == 0 { assert(rule_table()[0].code == sc[0]); }
        if i == 1 { assert(rule_table()[1].code == sc[5]); }
        if i == 2 { assert(rule_table()[2].code == sc[16]); }
        if i == 3 { assert(rule_table()[3].code == sc[15]); }
        if i == 4 { assert(rule_table()[4].code == sc[14]); }
        if i == 5 { assert(rule_table()[5].code == sc[4]); }
        if i == 6 { assert(rule_table()[6].code == sc[8]); }
        if i == 7 { assert(rule_table()[7].code == sc[6]); }
        if i == 8 { assert(rule_table()[8].code == sc[11]); }
        if i == 9 { assert(rule_table()[9].code == sc[17]); }
        if i == 10 { assert(rule_table()[10].code == sc[7]); }
        if i == 11 { assert(rule_table()[11].code == sc[10]); }
        if i == 12 { assert(rule_table()[12].code == sc[9]); }
        if i == 13 { assert(rule_table()[13].code == sc[12]); }
        if i == 14 { assert(rule_table()[14].code == sc[13]); }
        if i == 15 { assert(rule_table()[15].code == sc[2]); }
        if i == 16 { assert(rule_table()[16].code == sc[3]); }
        if i == 17 { assert(rule_table()[17].code == sc[1]); }
        if i == 18 { assert(rule_table()[18].code == sc[23]); }
        if i == 19 { assert(rule_table()[19].code == sc[25]); }
        if i == 20 { assert(rule_table()[20].code == sc[18]); }
        if i == 21 { assert(rule_table()[21].code == sc[19]); }
        if i == 22 { assert(rule_table()[22].code == sc[22]); }
        if i == 23 { assert(rule_table()[23].code == sc[24]); }
        if i == 24 { assert(rule_table()[24].code == sc[20]); }
        if i == 25 { assert(rule_table()[25].code == sc[21]); }
        if i == 26 { assert(rule_table()[26].code == sc[31]); }
        if i == 27 { assert(rule_table()[27].code == sc[33]); }
        if i == 28 { assert(rule_table()[28].code == sc[27]); }
        if i == 29 { assert(rule_table()[29].code == sc[30]); }
        if i == 30 { assert(rule_table()[30].code == sc[29]); }
        if i == 31 { assert(rule_table()[31].code == sc[32]); }
        if i == 32 { assert(rule_table()[32].code == sc[28]); }
        if i == 33 { assert(rule_table()[33].code == sc[26]); }
        if i == 34 { assert(rule_table()[34].code == sc[34]); }
        if i == 35 { assert(rule_table()[35].code == sc[35]); }
        if i == 36 { assert(rule_table()[36].code == sc[36]); }
        if i == 37 { assert(rule_table()[37].code == sc[38]); }
        if i == 38 { assert(rule_table()[38].code == sc[39]); }
        if i == 39 { assert(rule_table()[39].code == sc[37]); }
    }
    assert forall|i: int, j: int| 0 <= i < j < rule_table().len() implies #[trigger] rule_table()[i].code != #[trigger] rule_table()[j].code by {
        assert(rank[i] != rank[j]);
        let (a, b) = if rank[i] < rank[j] { (rank[i], rank[j]) } else { (rank[j], rank[i]) };
        assert(text_lt(sc[a], sc[b]));
        crate::text::lemma_text_lt_irreflexive(sc[a]);
    }
}

} // verus!
