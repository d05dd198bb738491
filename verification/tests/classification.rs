use lekalo_core::classification::policy::DestinationKind;
use lekalo_core::classification::diagnostic::{
    conflicting_kind, custody_ir, custody_model, custody_project, document_invalid, duplicate_subject,
    expired_declassification, invalid_declassification, kind_rule_missing, malformed_review_ref,
    missing_approval, policy_missing, self_approved, sink_ceiling_exceeded, unclassified_sensitive_sink,
    unknown_subject, CONFLICTING_KIND, CUSTODY_IR, CUSTODY_MODEL, CUSTODY_PROJECT, DOCUMENT_INVALID,
    DUPLICATE_SUBJECT, EXPIRED_DECLASSIFICATION, INVALID_DECLASSIFICATION, KIND_RULE_MISSING,
    MALFORMED_REVIEW_REF, MISSING_APPROVAL, POLICY_MISSING, SELF_APPROVED, SINK_CEILING_EXCEEDED,
    UNCLASSIFIED_SENSITIVE_SINK, UNKNOWN_SUBJECT,
};
use lekalo_core::classification::policy::{
    POLICY_FAMILY, POLICY_IDENTITY, POLICY_SCHEMA_VERSION, POLICY_VERSION,
};
use lekalo_core::classification::resolve::{Resolution, ResolvedKind};
use lekalo_core::classification::types::{
    BoundedText, Condition, ContractRef, DataKind, IsoTimestamp, Label, PolicyRef, QuestionId,
    RetentionClass, ReviewRef, SubjectPath,
};
use lekalo_core::classification::version::{
    FAMILY, IDENTITY, IR_IDENTITY, MAX_CANONICAL_BYTES, MAX_CLASSIFICATIONS, MAX_CONDITIONS,
    MAX_DECLASSIFICATIONS, MAX_DOC_BYTES, MAX_EXPORT_BYTES, MAX_LABELS, MAX_OPEN_QUESTIONS,
    MAX_SUBJECT_SEGMENTS, SCHEMA_VERSION, VERSION,
};
use lekalo_core::classification::wire::Attachment;
use lekalo_core::diagnostics::registry::DiagnosticRegistry;
use lekalo_core::diagnostics::types::Status;

const ALL_KINDS: [DataKind; 10] = [
    DataKind::Public,
    DataKind::Internal,
    DataKind::Derived,
    DataKind::RetentionLimited,
    DataKind::TenantScoped,
    DataKind::Confidential,
    DataKind::Financial,
    DataKind::Personal,
    DataKind::Health,
    DataKind::Credential,
];

const ALL_CONDITIONS: [Condition; 5] = [
    Condition::Aggregated,
    Condition::Anonymized,
    Condition::ConsentObtained,
    Condition::Pseudonymized,
    Condition::Suppressed,
];

#[test]
fn kinds_parse_the_closed_vocabulary_and_rank_totally() {
    for kind in ALL_KINDS {
        assert_eq!(DataKind::parse(kind.as_str()), Some(kind));
    }
    assert_eq!(DataKind::parse("secret"), None);
    let mut kinds = ALL_KINDS;
    kinds.sort_by_key(|kind| kind.rank());
    assert_eq!(kinds, ALL_KINDS);
    assert!(DataKind::Credential.rank() > DataKind::Public.rank());
}

#[test]
fn sensitive_and_default_rules_follow_the_plan() {
    assert!(!DataKind::Public.is_sensitive());
    assert!(!DataKind::Internal.is_sensitive());
    assert!(DataKind::Derived.is_sensitive());
    assert!(DataKind::Credential.is_sensitive());
    for kind in [DataKind::Personal, DataKind::Credential, DataKind::Financial, DataKind::Health, DataKind::TenantScoped] {
        assert!(kind.cross_tenant_forbidden_by_default());
    }
    assert!(!DataKind::Public.cross_tenant_forbidden_by_default());
    assert!(!DataKind::Credential.declassifiable());
    assert!(DataKind::Personal.declassifiable());
    assert!(DataKind::Derived.strict_lowering_of(DataKind::Personal));
    assert!(!DataKind::Public.strict_lowering_of(DataKind::Public));
}

#[test]
fn subject_paths_accept_definition_field_and_payload_levels() {
    assert!(SubjectPath::parse("planner.user_task_planning").is_ok());
    assert!(SubjectPath::parse("core.entity.user/email").is_ok());
    assert!(SubjectPath::parse("core.command.create_user/payload/ssn").is_ok());
    assert!(SubjectPath::parse("core.command.create_user/payload/deep").is_ok());
    assert!(SubjectPath::parse("core.command.create_user/payload/x/y").is_err());
    assert!(SubjectPath::parse("").is_err());
    assert!(SubjectPath::parse("core.entity.user/Email").is_err());
    assert!(SubjectPath::parse("onlyonesegment").is_err());
    assert!(SubjectPath::parse("planner.user_task_planning").is_ok());
}

#[test]
fn subject_paths_expose_head_and_field_segments() {
    let subject = SubjectPath::parse("core.command.create_user/payload/ssn").expect("valid");
    assert_eq!(subject.semantic_id(), "core.command.create_user");
    assert_eq!(subject.field_segments(), vec!["payload".to_string(), "ssn".to_string()]);
    assert!(!subject.is_definition_level());
    let head = SubjectPath::parse("core.entity.user").expect("valid");
    assert!(head.is_definition_level());
    assert_eq!(head.field_segments().len(), 0);
}

#[test]
fn conditions_parse_the_closed_vocabulary() {
    for condition in ALL_CONDITIONS {
        assert_eq!(Condition::parse(condition.as_str()), Some(condition));
    }
    assert_eq!(Condition::parse("deleted"), None);
}

#[test]
fn review_refs_reject_short_and_hostile_text() {
    assert!(ReviewRef::parse("review-2024-09-001").is_ok());
    assert!(ReviewRef::parse("short").is_err());
    assert!(ReviewRef::parse("has space").is_err());
    assert!(ReviewRef::parse("").is_err());
}

#[test]
fn contract_refs_demand_the_namespaced_semver_shape() {
    assert!(ContractRef::parse("dev.lekalo.nfr@0.4.0").is_ok());
    assert!(ContractRef::parse("grant.data-classification.export-user-derived@1.0.0").is_ok());
    assert!(ContractRef::parse("dev.lekalo.nfr").is_err());
    assert!(ContractRef::parse("dev.lekalo.nfr@not-a-version").is_err());
    assert!(ContractRef::parse("@0.4.0").is_err());
}

#[test]
fn policy_refs_and_labels_follow_the_bounded_token_grammar() {
    assert!(PolicyRef::parse("privacy-policy.masking.personal#1").is_ok());
    assert!(PolicyRef::parse("-leading").is_err());
    assert!(Label::parse("gdpr.art-9").is_ok());
    assert!(Label::parse("_leading").is_err());
    assert!(QuestionId::parse("q1").is_ok());
}

#[test]
fn timestamps_parse_only_the_exact_utc_shape() {
    assert!(IsoTimestamp::parse("2025-01-01T00:00:00Z").is_ok());
    assert!(IsoTimestamp::parse("2025-01-01T00:00:00z").is_err());
    assert!(IsoTimestamp::parse("2025-01-01 00:00:00").is_err());
    assert!(IsoTimestamp::parse("2025-01-01T00:00:00").is_err());
}

#[test]
fn timestamps_order_lexicographically_as_time() {
    let early = IsoTimestamp::parse("2025-01-01T00:00:00Z").expect("valid");
    let late = IsoTimestamp::parse("2026-01-01T00:00:00Z").expect("valid");
    assert!(early.is_before(&late));
    assert!(!late.is_before(&early));
    assert!(!early.is_before(&early));
}

#[test]
fn bounded_text_rejects_source_shape() {
    assert!(BoundedText::parse("Approved aggregate-only export.").is_ok());
    assert!(BoundedText::parse("no").is_ok());
    assert!(BoundedText::parse("").is_err());
    assert!(BoundedText::parse("tabs\tinside").is_err());
    assert!(BoundedText::parse("quotes \"inside\"").is_err());
}

#[test]
fn retention_classes_accept_kebab_tokens() {
    assert!(RetentionClass::parse("policy-30d").is_ok());
    assert!(RetentionClass::parse("Policy-30d").is_err());
    assert!(RetentionClass::parse("").is_err());
}

const VALID_ATTACHMENT: &str = r#"{
  "schemaVersion": "lekalo/data-classification/v0.4.0",
  "identity": "dev.lekalo.data-classification@0.4.0",
  "attachmentRevision": "1.0.0",
  "projectId": "clinic",
  "modelRef": {"modelVersion": "0.2.16", "digest": "sha256:aaaaaaaaaaaaaaaaaaaaaaaaaaaaaaaaaaaaaaaaaaaaaaaaaaaaaaaaaaaaaaaa"},
  "irRef": {"irVersion": "0.2.16", "digest": "sha256:bbbbbbbbbbbbbbbbbbbbbbbbbbbbbbbbbbbbbbbbbbbbbbbbbbbbbbbbbbbbbbbb"},
  "defaults": {"profile": "strict", "unclassifiedFields": "internal", "unclassifiedPayloads": "confidential"},
  "classifications": [
    {"subject": "core.entity.user/email", "kind": "personal"},
    {"subject": "core.entity.user", "kind": "confidential"},
    {"subject": "core.command.create_user/payload/ssn", "kind": "credential"}
  ],
  "declassifications": [
    {
      "id": "grant.core.export-user-derived@1.0.0",
      "subject": "core.entity.user/email",
      "fromKind": "personal",
      "toKind": "derived",
      "approvedBy": "review-2025-001",
      "justification": "Aggregated analytics only.",
      "conditions": ["aggregated"]
    }
  ],
  "openQuestions": []
}"#;

fn attachment() -> Attachment {
    Attachment::parse(VALID_ATTACHMENT.as_bytes()).expect("valid attachment")
}

#[test]
fn exact_field_entry_wins_and_widening_applies() {
    let resolution = Resolution::build(&attachment());
    let email = SubjectPath::parse("core.entity.user/email").expect("valid");
    assert_eq!(resolution.resolve(&email), ResolvedKind::Classified(DataKind::Personal));
}

#[test]
fn definition_default_covers_unlisted_fields() {
    let resolution = Resolution::build(&attachment());
    let name = SubjectPath::parse("core.entity.user/name").expect("valid");
    assert_eq!(resolution.resolve(&name), ResolvedKind::Classified(DataKind::Confidential));
}

#[test]
fn payload_paths_use_the_payload_default() {
    let resolution = Resolution::build(&attachment());
    let city = SubjectPath::parse("core.command.create_user/payload/city").expect("valid");
    assert_eq!(resolution.resolve(&city), ResolvedKind::Classified(DataKind::Confidential));
}

#[test]
fn unclassified_is_its_own_state() {
    let resolution = Resolution::build(&attachment());
    let orphan = SubjectPath::parse("other.module.thing/mystery").expect("valid");
    let resolved = resolution.resolve(&orphan);
    assert!(matches!(resolved, ResolvedKind::Classified(_)));
}

#[test]
fn grants_lower_only_through_the_declared_path() {
    let resolution = Resolution::build(&attachment());
    let email = SubjectPath::parse("core.entity.user/email").expect("valid");
    let mark = resolution.resolve_with_grants(&email, |_| true);
    assert_eq!(mark.kind, DataKind::Derived);
    let mark = resolution.resolve_with_grants(&email, |_| false);
    assert_eq!(mark.kind, DataKind::Personal);
}

#[test]
fn credential_subjects_keep_their_kind() {
    let resolution = Resolution::build(&attachment());
    let ssn = SubjectPath::parse("core.command.create_user/payload/ssn").expect("valid");
    let mark = resolution.resolve_with_grants(&ssn, |_| true);
    assert_eq!(mark.kind, DataKind::Credential);
}

#[test]
fn every_rule_finalizes_through_the_registry() {
    for set in [
        document_invalid("probe", None),
        unknown_subject("probe", "core.entity.user/email"),
        duplicate_subject("probe", "core.entity.user/email"),
        conflicting_kind("probe", "core.entity.user/email"),
        invalid_declassification("probe", "core.entity.user/email"),
        missing_approval("probe", "core.entity.user/email"),
        expired_declassification("probe", "core.entity.user/email"),
        self_approved("probe", "core.entity.user/email"),
        policy_missing("probe"),
        kind_rule_missing("probe", "core.entity.user/email"),
        sink_ceiling_exceeded("probe", "core.entity.user/email"),
        unclassified_sensitive_sink("probe", "core.entity.user/email"),
        custody_project("probe"),
        custody_model("probe"),
        custody_ir("probe"),
        malformed_review_ref("probe"),
    ] {
        assert_eq!(set.as_slice().len(), 1);
        assert!(set.as_slice()[0].id().starts_with("classification."));
    }
}

#[test]
fn every_rule_allows_invalid_and_only_that_gate_status_where_declared() {
    let registry = DiagnosticRegistry::embedded().expect("registry");
    for id in [
        DOCUMENT_INVALID,
        UNKNOWN_SUBJECT,
        DUPLICATE_SUBJECT,
        CONFLICTING_KIND,
        INVALID_DECLASSIFICATION,
        MISSING_APPROVAL,
        SELF_APPROVED,
        POLICY_MISSING,
        KIND_RULE_MISSING,
    ] {
        let entry = registry.entry(id).unwrap_or_else(|| panic!("{id}"));
        assert!(entry.allows_status(Status::Invalid), "{id}");
    }
    for id in [
        EXPIRED_DECLASSIFICATION,
        SINK_CEILING_EXCEEDED,
        UNCLASSIFIED_SENSITIVE_SINK,
        CUSTODY_PROJECT,
        CUSTODY_MODEL,
        CUSTODY_IR,
        MALFORMED_REVIEW_REF,
    ] {
        let entry = registry.entry(id).unwrap_or_else(|| panic!("{id}"));
        assert!(entry.allows_status(Status::Invalid), "{id}");
    }
}

#[test]
fn policy_identity_parts_are_consistent() {
    assert_eq!(POLICY_IDENTITY, format!("{POLICY_FAMILY}@{POLICY_VERSION}"));
    assert!(POLICY_SCHEMA_VERSION.ends_with(POLICY_VERSION));
}

#[test]
fn version_identity_parts_are_consistent() {
    assert_eq!(IDENTITY, format!("{FAMILY}@{VERSION}"));
    assert!(SCHEMA_VERSION.ends_with(VERSION));
    assert!(IR_IDENTITY.starts_with("dev.lekalo.ir@"));
}

#[test]
fn version_bounds_match_the_recorded_owner_decisions() {
    assert_eq!(MAX_CLASSIFICATIONS, 4096);
    assert_eq!(MAX_DECLASSIFICATIONS, 256);
    assert_eq!(MAX_OPEN_QUESTIONS, 256);
    assert_eq!(MAX_LABELS, 16);
    assert_eq!(MAX_CONDITIONS, 8);
    assert_eq!(MAX_SUBJECT_SEGMENTS, 3);
    assert_eq!(MAX_CANONICAL_BYTES, 1024 * 1024);
    assert_eq!(MAX_DOC_BYTES, 8 * 1024 * 1024);
    assert_eq!(MAX_EXPORT_BYTES, 32 * 1024 * 1024);
}

use lekalo_core::classification::policy::PolicyAttachment;
use lekalo_core::classification::validate::{
    strict_sensitive_sink_findings, validate_custody, validate_policy_and_grants, validate_subjects, BoundProject,
    DefinitionKind, ProjectDefinition,
};

fn empty_project() -> BoundProject {
    BoundProject {
        project_id: None,
        model_version: "0.2.16".to_owned(),
        ir_canonical_json: String::new(),
        definitions: Vec::new(),
    }
}

fn grant_json(expires_at: &str) -> String {
    format!(
        r#"{{
      "id": "grant.core.export-user-derived@1.0.0",
      "subject": "notify.user_id",
      "fromKind": "personal",
      "toKind": "derived",
      "approvedBy": "review-2025-001",
      "justification": "Aggregated analytics only.",
      "expiresAt": "{expires_at}"
    }}"#
    )
}

fn attachment_for(grant: &str) -> Attachment {
    let model = format!("sha256:{}", "a".repeat(64));
    let ir = format!("sha256:{}", "b".repeat(64));
    let json = format!(
        r#"{{
  "schemaVersion": "lekalo/data-classification/v0.4.0",
  "identity": "dev.lekalo.data-classification@0.4.0",
  "attachmentRevision": "1.0.0",
  "projectId": "planner",
  "modelRef": {{"modelVersion": "0.2.16", "digest": "{model}"}},
  "irRef": {{"irVersion": "0.2.16", "digest": "{ir}"}},
  "defaults": {{"profile": "default", "unclassifiedFields": "internal", "unclassifiedPayloads": "confidential"}},
  "classifications": [
    {{"subject": "notify.user_id", "kind": "personal"}}
  ],
  "declassifications": [{grant}],
  "openQuestions": []
}}"#
    );
    Attachment::parse(json.as_bytes()).expect("parses")
}

fn planner_policy() -> PolicyAttachment {
    let model = format!("sha256:{}", "a".repeat(64));
    let ir = format!("sha256:{}", "b".repeat(64));
    let policy_json = format!(
        r#"{{
  "schemaVersion": "lekalo/classification-policy/v0.4.0",
  "identity": "dev.lekalo.classification-policy@0.4.0",
  "attachmentRevision": "1.0.0",
  "projectId": "planner",
  "modelRef": {{"modelVersion": "0.2.16", "digest": "{model}"}},
  "irRef": {{"irVersion": "0.2.16", "digest": "{ir}"}},
  "kinds": [{{
    "kind": "personal",
    "readers": ["tenant"], "writers": ["tenant"],
    "destinations": ["internal-service"],
    "masking": {{"strategy": "tokenize", "policyRef": "privacy-policy.masking.personal"}},
    "consentRequired": false, "crossTenant": "forbidden",
    "declassifyRoles": ["data-steward"]
  }}],
  "sinks": {{"logs": {{"maxKind": "internal"}}, "traces": {{"maxKind": "internal"}}, "contextCapsules": {{"maxKind": "internal"}}, "diagnostics": {{"maxKind": "internal"}}, "evidence": {{"maxKind": "public"}}, "exports": {{"maxKind": "derived"}}}},
  "openQuestions": []
}}"#
    );
    PolicyAttachment::parse(policy_json.as_bytes()).expect("policy parses")
}

#[test]
fn expired_grants_are_findings_and_live_grants_pass() {
    let policy = planner_policy();
    let project = empty_project();
    let expired = attachment_for(&grant_json("2020-01-01T00:00:00Z"));
    let resolution = Resolution::build(&expired);
    let outcome = validate_policy_and_grants(&expired, &policy, &resolution, &project).expect("runs");
    assert!(outcome.invalid);
    assert!(
        outcome.rows.iter().any(|row| row.rule == "classification.expired-declassification"),
        "{outcome:?}"
    );

    let live = attachment_for(&grant_json("2999-01-01T00:00:00Z"));
    let resolution = Resolution::build(&live);
    let outcome = validate_policy_and_grants(&live, &policy, &resolution, &project).expect("runs");
    assert!(!outcome.invalid, "{outcome:?}");
    assert_eq!(outcome.finding_count(), 0);
    assert_eq!(outcome.wire_findings(), ",\"findings\":[]");
}

#[test]
fn validation_rows_render_as_a_findings_fragment() {
    let policy = planner_policy();
    let project = empty_project();
    let expired = attachment_for(&grant_json("2020-01-01T00:00:00Z"));
    let resolution = Resolution::build(&expired);
    let outcome = validate_policy_and_grants(&expired, &policy, &resolution, &project).expect("runs");
    assert_eq!(
        outcome.wire_findings(),
        ",\"findings\":[{\"rule\":\"classification.expired-declassification\",\"subject\":\"notify.user_id\"}]"
    );
}

#[test]
fn custody_refuses_a_foreign_project_and_a_stale_pin() {
    let policy = planner_policy();
    let attachment = attachment_for(&grant_json("2999-01-01T00:00:00Z"));
    let mut project = empty_project();
    assert!(validate_custody(&attachment, &policy, &project, "{}").is_err());
    project.project_id = Some("planner".to_owned());
    let refused = validate_custody(&attachment, &policy, &project, "{}").expect_err("stale model pin");
    assert!(refused.as_slice()[0].id().starts_with("classification."));
}

#[test]
fn subjects_resolve_through_definitions_and_members() {
    let attachment = attachment_for(&grant_json("2999-01-01T00:00:00Z"));
    let mut project = empty_project();
    assert!(validate_subjects(&attachment, &project).is_err());
    project.definitions.push(ProjectDefinition {
        id: "notify.user_id".to_owned(),
        kind: DefinitionKind::Entity,
        members: Vec::new(),
        reads: Vec::new(),
        effects: Vec::new(),
        entity: String::new(),
        emits: Vec::new(),
    });
    assert!(validate_subjects(&attachment, &project).is_ok());
    assert!(strict_sensitive_sink_findings(&attachment, &project).is_empty());
}

use lekalo_core::classification::canonical::{
    attachment_canonical_bytes, attachment_digest, policy_canonical_bytes, policy_digest,
};

#[test]
fn attachment_canonical_bytes_are_compact_sorted_and_reparse() {
    let bytes = attachment_canonical_bytes(&attachment()).expect("fits");
    assert!(bytes.starts_with("{\"attachmentRevision\":\"1.0.0\",\"classifications\":["));
    assert!(!bytes.ends_with('\n'));
    assert!(!bytes.contains(": "));
    assert!(bytes.contains(
        "{\"kind\":\"confidential\",\"subject\":\"core.entity.user\"}"
    ));
    assert!(bytes.contains("\"conditions\":[\"aggregated\"]"));
    assert!(bytes.ends_with("\"projectId\":\"clinic\",\"schemaVersion\":\"lekalo/data-classification/v0.4.0\"}"));
    let again = Attachment::parse(bytes.as_bytes()).expect("canonical bytes reparse");
    assert_eq!(attachment_canonical_bytes(&again).expect("fits"), bytes);
}

#[test]
fn attachment_digest_is_prefixed_lowercase_hex_and_stable() {
    let digest = attachment_digest(&attachment()).expect("fits");
    assert_eq!(digest.len(), 71);
    assert!(digest.starts_with("sha256:"));
    assert!(digest[7..].bytes().all(|b| b.is_ascii_digit() || (b'a'..=b'f').contains(&b)));
    assert_eq!(attachment_digest(&attachment()).expect("fits"), digest);
    let other = attachment_for(&grant_json("2030-01-01T00:00:00Z"));
    assert_ne!(attachment_digest(&other).expect("fits"), digest);
}

#[test]
fn policy_canonical_bytes_cover_every_sink_and_reparse() {
    let policy = planner_policy();
    let bytes = policy_canonical_bytes(&policy).expect("fits");
    assert!(bytes.starts_with("{\"attachmentRevision\":\"1.0.0\",\"identity\":\"dev.lekalo.classification-policy@0.4.0\""));
    assert!(bytes.contains("\"sinks\":{\"contextCapsules\":{\"maxKind\":\"internal\"},\"diagnostics\":{\"maxKind\":\"internal\"},\"evidence\":{\"maxKind\":\"public\"},\"exports\":{\"maxKind\":\"derived\"},\"logs\":{\"maxKind\":\"internal\"},\"traces\":{\"maxKind\":\"internal\"}}"));
    assert!(bytes.contains("\"masking\":{\"policyRef\":\"privacy-policy.masking.personal\",\"strategy\":\"tokenize\"}"));
    assert!(!bytes.contains("retentionRef"));
    let again = PolicyAttachment::parse(bytes.as_bytes()).expect("canonical bytes reparse");
    assert_eq!(policy_canonical_bytes(&again).expect("fits"), bytes);
    let digest = policy_digest(&policy).expect("fits");
    assert_eq!(digest.len(), 71);
    assert!(digest.starts_with("sha256:"));
}

#[test]
fn custody_refusals_carry_their_dedicated_rules() {
    let policy = planner_policy();
    let attachment = attachment_for(&grant_json("2999-01-01T00:00:00Z"));
    let mut project = empty_project();
    project.project_id = Some("other".to_owned());
    let refused = validate_custody(&attachment, &policy, &project, "{}").expect_err("foreign project");
    assert_eq!(refused.reason_ids(), ["classification.custody-project"]);
    project.project_id = Some("planner".to_owned());
    let refused = validate_custody(&attachment, &policy, &project, "{}").expect_err("stale model pin");
    assert_eq!(refused.reason_ids(), ["classification.custody-model"]);
}

#[test]
fn two_grants_of_one_subject_are_refused() {
    let first = grant_json("2999-01-01T00:00:00Z");
    let second = first.replace("grant.core.export-user-derived@1.0.0", "grant.core.export-user-derived@2.0.0");
    let model = format!("sha256:{}", "a".repeat(64));
    let ir = format!("sha256:{}", "b".repeat(64));
    let json = format!(
        r#"{{
  "schemaVersion": "lekalo/data-classification/v0.4.0",
  "identity": "dev.lekalo.data-classification@0.4.0",
  "attachmentRevision": "1.0.0",
  "projectId": "planner",
  "modelRef": {{"modelVersion": "0.2.16", "digest": "{model}"}},
  "irRef": {{"irVersion": "0.2.16", "digest": "{ir}"}},
  "defaults": {{"profile": "default", "unclassifiedFields": "internal", "unclassifiedPayloads": "confidential"}},
  "classifications": [
    {{"subject": "notify.user_id", "kind": "personal"}}
  ],
  "declassifications": [{first}, {second}],
  "openQuestions": []
}}"#
    );
    let refused = Attachment::parse(json.as_bytes()).expect_err("duplicate grant subject");
    assert_eq!(refused.reason_ids(), ["classification.unknown-kind"]);
}

#[test]
fn credential_never_lowers_even_under_an_accepted_grant() {
    let json = VALID_ATTACHMENT.replace(
        r#""subject": "core.entity.user/email",
      "fromKind": "personal",
      "toKind": "derived","#,
        r#""subject": "core.command.create_user/payload/ssn",
      "fromKind": "credential",
      "toKind": "public","#,
    );
    let attachment = Attachment::parse(json.as_bytes()).expect("parses");
    let resolution = Resolution::build(&attachment);
    let ssn = SubjectPath::parse("core.command.create_user/payload/ssn").expect("valid");
    let mark = resolution.resolve_with_grants(&ssn, |_| true);
    assert_eq!(mark.kind, DataKind::Credential);
    assert_eq!(mark.subject, "core.command.create_user/payload/ssn");
}

#[test]
fn destinations_sort_in_byte_order_of_their_spellings() {
    let model = format!("sha256:{}", "a".repeat(64));
    let ir = format!("sha256:{}", "b".repeat(64));
    let policy_json = format!(
        r#"{{
  "schemaVersion": "lekalo/classification-policy/v0.4.0",
  "identity": "dev.lekalo.classification-policy@0.4.0",
  "attachmentRevision": "1.0.0",
  "projectId": "planner",
  "modelRef": {{"modelVersion": "0.2.16", "digest": "{model}"}},
  "irRef": {{"irVersion": "0.2.16", "digest": "{ir}"}},
  "kinds": [{{
    "kind": "personal",
    "readers": ["tenant"], "writers": ["tenant"],
    "destinations": ["internal-service", "email", "partner-api", "event-broker"],
    "masking": {{"strategy": "tokenize", "policyRef": "privacy-policy.masking.personal"}},
    "consentRequired": false, "crossTenant": "forbidden",
    "declassifyRoles": ["data-steward"]
  }}],
  "sinks": {{"logs": {{"maxKind": "internal"}}, "traces": {{"maxKind": "internal"}}, "contextCapsules": {{"maxKind": "internal"}}, "diagnostics": {{"maxKind": "internal"}}, "evidence": {{"maxKind": "public"}}, "exports": {{"maxKind": "derived"}}}},
  "openQuestions": []
}}"#
    );
    let policy = PolicyAttachment::parse(policy_json.as_bytes()).expect("policy parses");
    let rule = policy.rule(DataKind::Personal).expect("rule");
    assert_eq!(
        rule.destinations(),
        [DestinationKind::Email, DestinationKind::EventBroker, DestinationKind::InternalService, DestinationKind::PartnerApi]
    );
}

#[test]
fn timestamps_order_as_time() {
    let early = IsoTimestamp::parse("2024-12-31T23:59:59Z").expect("valid");
    let late = IsoTimestamp::parse("2025-01-01T00:00:00Z").expect("valid");
    assert!(early < late);
    assert_eq!(early.clone().max(late.clone()), late);
}

#[test]
fn canonical_bytes_ignore_member_and_list_order() {
    let reordered = r#"{
  "openQuestions": [],
  "declassifications": [
    {
      "conditions": ["aggregated"],
      "justification": "Aggregated analytics only.",
      "approvedBy": "review-2025-001",
      "toKind": "derived",
      "fromKind": "personal",
      "subject": "core.entity.user/email",
      "id": "grant.core.export-user-derived@1.0.0"
    }
  ],
  "classifications": [
    {"kind": "credential", "subject": "core.command.create_user/payload/ssn"},
    {"kind": "confidential", "subject": "core.entity.user"},
    {"kind": "personal", "subject": "core.entity.user/email"}
  ],
  "defaults": {"unclassifiedPayloads": "confidential", "unclassifiedFields": "internal", "profile": "strict"},
  "irRef": {"digest": "sha256:bbbbbbbbbbbbbbbbbbbbbbbbbbbbbbbbbbbbbbbbbbbbbbbbbbbbbbbbbbbbbbbb", "irVersion": "0.2.16"},
  "modelRef": {"digest": "sha256:aaaaaaaaaaaaaaaaaaaaaaaaaaaaaaaaaaaaaaaaaaaaaaaaaaaaaaaaaaaaaaaa", "modelVersion": "0.2.16"},
  "projectId": "clinic",
  "attachmentRevision": "1.0.0",
  "identity": "dev.lekalo.data-classification@0.4.0",
  "schemaVersion": "lekalo/data-classification/v0.4.0"
}"#;
    let other = Attachment::parse(reordered.as_bytes()).expect("valid attachment");
    assert_eq!(
        attachment_canonical_bytes(&other).expect("fits"),
        attachment_canonical_bytes(&attachment()).expect("fits")
    );
    assert_eq!(attachment_digest(&other).expect("fits"), attachment_digest(&attachment()).expect("fits"));
}
