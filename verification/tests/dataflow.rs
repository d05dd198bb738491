use lekalo_core::dataflow::report::{report_canonical_bytes, report_from_value};
use lekalo_core::classification::policy::PolicyAttachment;
use lekalo_core::classification::resolve::Resolution;
use lekalo_core::classification::types::{DataKind, SubjectPath};
use lekalo_core::classification::wire::Attachment;
use lekalo_core::dataflow::analyze::{
    analyze, exposure_findings, gate_rule_of, sink_kind_of, EffectEdge, EffectGraph, EndpointActor,
    EndpointExposure, EntityFields, Inputs,
};
use lekalo_core::dataflow::report::Verdict;
use lekalo_core::dataflow::types::{
    Confidence, Finding, GateReason, Provenance, SinkKind, TenantRelation, UnknownFlow,
};
use lekalo_core::ids::{SemanticId, Sha256Digest};
use lekalo_core::json::JsonValue;

const ALL_SINKS: [SinkKind; 12] = [
    SinkKind::CacheWrite,
    SinkKind::ContextCapsule,
    SinkKind::Diagnostic,
    SinkKind::EndpointResponse,
    SinkKind::Evidence,
    SinkKind::EventPublish,
    SinkKind::Export,
    SinkKind::ExternalCall,
    SinkKind::Log,
    SinkKind::Publication,
    SinkKind::StorageWrite,
    SinkKind::Trace,
];

#[test]
fn vocabularies_parse_the_closed_sets() {
    for kind in ALL_SINKS {
        assert_eq!(SinkKind::parse(kind.as_str()), Some(kind));
    }
    assert_eq!(SinkKind::parse("database"), None);
    for confidence in [Confidence::High, Confidence::Low, Confidence::Unknown] {
        assert_eq!(Confidence::parse(confidence.as_str()), Some(confidence));
    }
    assert_eq!(Confidence::parse("certain"), None);
    for provenance in [Provenance::Canonical, Provenance::Observed, Provenance::Declared] {
        assert_eq!(Provenance::parse(provenance.as_str()), Some(provenance));
    }
    assert_eq!(Provenance::parse("guessed"), None);
    for reason in [TenantRelation::Same, TenantRelation::Crossing, TenantRelation::Unknown] {
        assert_eq!(TenantRelation::parse(reason.as_str()), Some(reason));
    }
    assert_eq!(TenantRelation::parse("shared"), None);
}

fn text(s: &str) -> JsonValue {
    JsonValue::Text(s.to_owned())
}

fn finding_wire(rule: &str, severity: &str, subject: &str, detail: &str) -> JsonValue {
    JsonValue::Object(vec![
        ("ruleId".to_owned(), text(rule)),
        ("severity".to_owned(), text(severity)),
        ("subject".to_owned(), text(subject)),
        ("detail".to_owned(), text(detail)),
    ])
}

#[test]
fn findings_reject_non_family_rules_and_values() {
    let finding = finding_wire("dataflow.tenant-crossing", "error", "core.entity.user/email", "cross-tenant-event");
    assert!(Finding::from_wire(&finding).is_ok());
    let foreign = finding_wire("graph.input-invalid", "error", "x", "boom");
    assert!(Finding::from_wire(&foreign).is_err());
    let long_detail = finding_wire("dataflow.tenant-crossing", "error", "x.y/f", "d");
    assert!(Finding::from_wire(&long_detail).is_ok());
}

#[test]
fn findings_survive_their_wire_form() {
    let finding = finding_wire("classification.sink-ceiling-exceeded", "warning", "core.entity.user/email", "sink-logs");
    let parsed = Finding::from_wire(&finding).expect("valid");
    let again = Finding::from_wire(&parsed.to_wire()).expect("round trips");
    assert_eq!(again.rule_id(), "classification.sink-ceiling-exceeded");
    assert_eq!(again.subject(), "core.entity.user/email");
    assert_eq!(again.detail(), "sink-logs");
    assert!(!again.severity().is_error());
    let upper = finding_wire("dataflow.tenant-crossing", "error", "x", "Detail");
    assert!(Finding::from_wire(&upper).is_err());
}

#[test]
fn unknown_flows_survive_their_wire_form() {
    let wire = JsonValue::Object(vec![
        ("source".to_owned(), text("core.entity.user/email")),
        ("reason".to_owned(), text("dynamic-hop")),
    ]);
    let unknown = UnknownFlow::from_wire(&wire).expect("valid");
    let again = UnknownFlow::from_wire(&unknown.to_wire()).expect("round trips");
    assert_eq!(again.source().as_str(), "core.entity.user/email");
    assert_eq!(again.reason().as_str(), "dynamic-hop");
}

#[test]
fn every_effect_kind_maps_to_its_honest_sink_kind() {
    assert_eq!(sink_kind_of("read"), SinkKind::EndpointResponse);
    assert_eq!(sink_kind_of("create"), SinkKind::StorageWrite);
    assert_eq!(sink_kind_of("update"), SinkKind::StorageWrite);
    assert_eq!(sink_kind_of("delete"), SinkKind::StorageWrite);
    assert_eq!(sink_kind_of("write-field"), SinkKind::StorageWrite);
    assert_eq!(sink_kind_of("emit-event"), SinkKind::EventPublish);
    assert_eq!(sink_kind_of("external-call"), SinkKind::ExternalCall);
    assert_eq!(sink_kind_of("enqueue-job"), SinkKind::ExternalCall);
    assert_eq!(sink_kind_of("publish-output"), SinkKind::Publication);
    assert_eq!(sink_kind_of("audit-log"), SinkKind::Log);
    assert_eq!(sink_kind_of("cache-read"), SinkKind::CacheWrite);
    assert_eq!(sink_kind_of("cache-write"), SinkKind::CacheWrite);
    assert_eq!(sink_kind_of("cache-invalidate"), SinkKind::CacheWrite);
    assert_eq!(sink_kind_of("something-else"), SinkKind::StorageWrite);
}

#[test]
fn gate_rules_cover_every_failure_reason() {
    for (reason, rule) in [
        (GateReason::MissingDestination, Some("dataflow.missing-destination")),
        (GateReason::MissingApproval, Some("dataflow.missing-approval")),
        (GateReason::DestinationForbidden, Some("dataflow.destination-forbidden")),
        (GateReason::UnknownFlow, Some("dataflow.unknown-flow")),
        (GateReason::LowConfidence, Some("dataflow.low-confidence-sensitive")),
        (GateReason::SinkCeilingExceeded, Some("classification.sink-ceiling-exceeded")),
        (GateReason::UnclassifiedSubject, Some("classification.unclassified-sensitive-sink")),
        (GateReason::InputsIncomplete, Some("dataflow.observed-incomplete")),
        (GateReason::NotRequired, None),
        (GateReason::DestinationDeclared, None),
        (GateReason::ApprovalPresent, None),
    ] {
        assert_eq!(gate_rule_of(reason), rule, "{reason:?}");
    }
}

const ATTACHMENT: &str = r#"{
  "schemaVersion": "lekalo/data-classification/v0.4.0",
  "identity": "dev.lekalo.data-classification@0.4.0",
  "attachmentRevision": "1.0.0",
  "projectId": "clinic",
  "modelRef": {"modelVersion": "0.2.16", "digest": "sha256:aaaaaaaaaaaaaaaaaaaaaaaaaaaaaaaaaaaaaaaaaaaaaaaaaaaaaaaaaaaaaaaa"},
  "irRef": {"irVersion": "0.2.16", "digest": "sha256:bbbbbbbbbbbbbbbbbbbbbbbbbbbbbbbbbbbbbbbbbbbbbbbbbbbbbbbbbbbbbbbb"},
  "defaults": {"profile": "strict", "unclassifiedFields": "internal", "unclassifiedPayloads": "confidential"},
  "classifications": [
    {"subject": "core.entity.user/email", "kind": "personal"}
  ],
  "declassifications": [],
  "openQuestions": []
}"#;

fn resolution() -> Resolution {
    let attachment = Attachment::parse(ATTACHMENT.as_bytes()).expect("parses");
    Resolution::build(&attachment)
}

fn exposure_of(subject: &str) -> EndpointExposure {
    EndpointExposure {
        endpoint: "core.endpoint.list_users".to_owned(),
        actor: EndpointActor::Public,
        result_subject: SubjectPath::parse(subject).expect("subject"),
    }
}

#[test]
fn a_public_endpoint_exposing_a_personal_field_is_a_finding() {
    let resolution = resolution();
    let exposures = vec![exposure_of("core.entity.user/email")];
    let findings = exposure_findings(&resolution, &exposures);
    assert_eq!(findings.len(), 1);
    assert_eq!(findings[0].rule_id(), "dataflow.exposed-private-field");
    assert!(findings[0].severity().is_error());
}

#[test]
fn authenticated_actors_never_expose_and_unresolved_subjects_fail_closed() {
    let resolution = resolution();
    let mut authenticated = exposure_of("core.entity.user/email");
    authenticated.actor = EndpointActor::Authenticated;
    let unresolved = exposure_of("core.entity.user");
    let findings = exposure_findings(&resolution, &[authenticated, unresolved]);
    assert_eq!(findings.len(), 1, "{findings:?}");
    assert_eq!(findings[0].rule_id(), "dataflow.exposed-private-field");
    assert_eq!(findings[0].subject(), "core.entity.user");
}

#[test]
fn an_approved_lowering_to_public_clears_the_exposure() {
    let attachment = Attachment::parse(
        r#"{
  "schemaVersion": "lekalo/data-classification/v0.4.0",
  "identity": "dev.lekalo.data-classification@0.4.0",
  "attachmentRevision": "1.1.0",
  "projectId": "clinic",
  "modelRef": {"modelVersion": "0.2.16", "digest": "sha256:aaaaaaaaaaaaaaaaaaaaaaaaaaaaaaaaaaaaaaaaaaaaaaaaaaaaaaaaaaaaaaaa"},
  "irRef": {"irVersion": "0.2.16", "digest": "sha256:bbbbbbbbbbbbbbbbbbbbbbbbbbbbbbbbbbbbbbbbbbbbbbbbbbbbbbbbbbbbbbbb"},
  "defaults": {"profile": "strict", "unclassifiedFields": "internal", "unclassifiedPayloads": "confidential"},
  "classifications": [
    {"subject": "core.entity.user/email", "kind": "personal"}
  ],
  "declassifications": [
    {
      "id": "grant.core.email-public@1.0.0",
      "subject": "core.entity.user/email",
      "fromKind": "personal",
      "toKind": "public",
      "approvedBy": "review-2025-09-003",
      "justification": "Published directory listing."
    }
  ],
  "openQuestions": []
}"#
        .as_bytes(),
    )
    .expect("parses");
    let resolution = Resolution::build(&attachment);
    let exposures = vec![exposure_of("core.entity.user/email")];
    let findings = exposure_findings(&resolution, &exposures);
    assert!(findings.is_empty(), "the grant clears the exposure");
}

const POLICY: &str = r#"{
  "schemaVersion": "lekalo/classification-policy/v0.4.0",
  "identity": "dev.lekalo.classification-policy@0.4.0",
  "attachmentRevision": "1.0.0",
  "projectId": "clinic",
  "modelRef": {"modelVersion": "0.2.16", "digest": "sha256:aaaaaaaaaaaaaaaaaaaaaaaaaaaaaaaaaaaaaaaaaaaaaaaaaaaaaaaaaaaaaaaa"},
  "irRef": {"irVersion": "0.2.16", "digest": "sha256:bbbbbbbbbbbbbbbbbbbbbbbbbbbbbbbbbbbbbbbbbbbbbbbbbbbbbbbbbbbbbbbb"},
  "kinds": [{
    "kind": "personal",
    "readers": ["tenant"], "writers": ["tenant"],
    "destinations": ["internal-service"],
    "masking": {"strategy": "tokenize", "policyRef": "privacy-policy.masking.personal"},
    "consentRequired": false, "crossTenant": "forbidden",
    "declassifyRoles": ["data-steward"]
  }],
  "sinks": {"logs": {"maxKind": "internal"}, "traces": {"maxKind": "internal"}, "contextCapsules": {"maxKind": "internal"}, "diagnostics": {"maxKind": "internal"}, "evidence": {"maxKind": "public"}, "exports": {"maxKind": "derived"}},
  "openQuestions": []
}"#;

fn edge(resource: &str, kind_key: &str, canonical: bool) -> EffectEdge {
    EffectEdge {
        resource: resource.to_owned(),
        operation: "core.command.update_user".to_owned(),
        operation_id: "core.command.update_user".to_owned(),
        kind_key: kind_key.to_owned(),
        canonical,
    }
}

fn digest(c: char) -> Sha256Digest {
    Sha256Digest::parse(&format!("sha256:{}", c.to_string().repeat(64))).expect("digest")
}

#[test]
fn a_declared_tenant_scoped_write_passes_and_an_observed_edge_denies() {
    let resolution = resolution();
    let policy = PolicyAttachment::parse(POLICY.as_bytes()).expect("policy");
    let project = SemanticId::parse_root("clinic").expect("id");
    let (model, ir, cref, pref) = (digest('a'), digest('b'), digest('c'), digest('d'));
    let entities = vec![EntityFields {
        id: "core.entity.user".to_owned(),
        fields: vec!["email".to_owned(), "tenant_id".to_owned()],
    }];
    let run = |graph: &EffectGraph| {
        analyze(&Inputs {
            project_id: &project,
            model_ref: ("0.2.16", &model),
            ir_ref: ("0.2.16", &ir),
            graph,
            entities: &entities,
            classification: &resolution,
            classification_ref: &cref,
            policy: &policy,
            policy_ref: &pref,
            generated_by: "lekalo-core",
            report_revision: "1.0.0",
            endpoint_exposures: &[],
        })
    };
    let declared = EffectGraph { declared: vec![edge("core.entity.user/email", "update", true)], detected: vec![] };
    let analysis = run(&declared).unwrap_or_else(|_| panic!("analysis runs"));
    let report = &analysis.report;
    let bytes = lekalo_core::dataflow::report::report_canonical_bytes(report).unwrap_or_else(|_| panic!("fits"));
    assert!(bytes.starts_with("{\"classificationRef\":\"sha256:cccc"));
    assert!(bytes.contains("\"inputsComplete\":true,\"irRef\":{\"digest\":\"sha256:bbbb"));
    assert!(!bytes.contains("openQuestions"));
    assert!(bytes.ends_with("\"unknowns\":[],\"verdict\":\"pass\"}"));
    assert_eq!(report.flows().len(), 1);
    let flow = &report.flows()[0];
    assert!(flow.id().starts_with("flow-0001-"));
    assert_eq!(flow.id().len(), "flow-0001-".len() + 8);
    assert_eq!(flow.path(), ["effect:core.command.update_user:update".to_owned()]);
    assert_eq!(flow.sink_kind(), SinkKind::StorageWrite);
    assert_eq!(flow.provenance(), Provenance::Canonical);
    assert_eq!(flow.confidence(), Confidence::High);
    assert_eq!(flow.tenant_relation(), TenantRelation::Same);
    assert_eq!(flow.classification(), DataKind::Personal);
    assert_eq!(flow.gate().map(|g| g.reason()), Some(GateReason::NotRequired));
    assert!(report.findings().is_empty());
    assert!(report.inputs_complete());
    assert_eq!(report.verdict(), Verdict::Pass);
    assert!(analysis.diagnostics.is_empty());

    let observed = EffectGraph {
        declared: vec![edge("core.entity.user/email", "update", true)],
        detected: vec![edge("core.entity.user/email", "emit-event", false), edge("not a subject", "read", false)],
    };
    let analysis = run(&observed).unwrap_or_else(|_| panic!("analysis runs"));
    let report = &analysis.report;
    assert_eq!(report.flows().len(), 2);
    assert!(!report.inputs_complete());
    assert_eq!(report.verdict(), Verdict::Denied);
    let rules: Vec<&str> = report.findings().iter().map(|f| f.rule_id()).collect();
    assert_eq!(rules, ["dataflow.low-confidence-sensitive", "dataflow.observed-incomplete"]);
    assert_eq!(analysis.diagnostics.as_slice().len(), 2);
    assert_eq!(analysis.diagnostics.as_slice()[0].id(), "dataflow.low-confidence-sensitive");

    let unresolved = EffectGraph { declared: vec![edge("other.module.thing", "read", true)], detected: vec![] };
    let analysis = run(&unresolved).unwrap_or_else(|_| panic!("analysis runs"));
    assert_eq!(analysis.report.unknowns().len() + analysis.report.flows().len(), 1);
}

#[test]
fn the_public_endpoint_response_is_a_gated_sink() {
    assert!(SinkKind::EndpointResponse.is_gated());
    assert!(SinkKind::ExternalCall.is_gated());
    assert!(SinkKind::Publication.is_gated());
    assert!(SinkKind::Export.is_gated());
    assert!(SinkKind::CacheWrite.is_gated());
    assert!(!SinkKind::StorageWrite.is_gated());
    assert!(!SinkKind::Log.is_gated());
}

#[test]
fn an_expired_lowering_to_public_does_not_clear_the_exposure() {
    let attachment = Attachment::parse(
        r#"{
  "schemaVersion": "lekalo/data-classification/v0.4.0",
  "identity": "dev.lekalo.data-classification@0.4.0",
  "attachmentRevision": "1.1.0",
  "projectId": "clinic",
  "modelRef": {"modelVersion": "0.2.16", "digest": "sha256:aaaaaaaaaaaaaaaaaaaaaaaaaaaaaaaaaaaaaaaaaaaaaaaaaaaaaaaaaaaaaaaa"},
  "irRef": {"irVersion": "0.2.16", "digest": "sha256:bbbbbbbbbbbbbbbbbbbbbbbbbbbbbbbbbbbbbbbbbbbbbbbbbbbbbbbbbbbbbbbb"},
  "defaults": {"profile": "strict", "unclassifiedFields": "internal", "unclassifiedPayloads": "confidential"},
  "classifications": [
    {"subject": "core.entity.user/email", "kind": "personal"}
  ],
  "declassifications": [
    {
      "id": "grant.core.email-public@1.0.0",
      "subject": "core.entity.user/email",
      "fromKind": "personal",
      "toKind": "public",
      "approvedBy": "review-2025-09-003",
      "justification": "Published directory listing.",
      "expiresAt": "2020-01-01T00:00:00Z"
    }
  ],
  "openQuestions": []
}"#
        .as_bytes(),
    )
    .expect("parses");
    let resolution = Resolution::build(&attachment);
    let exposures = vec![exposure_of("core.entity.user/email")];
    let findings = exposure_findings(&resolution, &exposures);
    assert_eq!(findings.len(), 1, "an expired grant clears nothing");
    assert_eq!(findings[0].rule_id(), "dataflow.exposed-private-field");
}

#[test]
fn an_unsatisfied_gate_denies_an_otherwise_clean_report() {
    let resolution = resolution();
    let policy = PolicyAttachment::parse(POLICY.as_bytes()).expect("policy");
    let project = SemanticId::parse_root("clinic").expect("id");
    let (model, ir, cref, pref) = (digest('a'), digest('b'), digest('c'), digest('d'));
    let entities = vec![EntityFields {
        id: "core.entity.user".to_owned(),
        fields: vec!["email".to_owned(), "tenant_id".to_owned()],
    }];
    let graph = EffectGraph { declared: vec![edge("core.entity.user/email", "read", true)], detected: vec![] };
    let analysis = analyze(&Inputs {
        project_id: &project,
        model_ref: ("0.2.16", &model),
        ir_ref: ("0.2.16", &ir),
        graph: &graph,
        entities: &entities,
        classification: &resolution,
        classification_ref: &cref,
        policy: &policy,
        policy_ref: &pref,
        generated_by: "lekalo-core",
        report_revision: "1.0.0",
        endpoint_exposures: &[],
    })
    .unwrap_or_else(|_| panic!("analysis runs"));
    let report = &analysis.report;
    assert_eq!(report.flows().len(), 1);
    let flow = &report.flows()[0];
    assert_eq!(flow.sink_kind(), SinkKind::EndpointResponse);
    let gate = flow.gate().expect("gated");
    assert!(gate.required());
    assert!(!gate.satisfied());
    assert_eq!(gate.reason(), GateReason::MissingDestination);
    assert!(report.inputs_complete());
    assert_eq!(report.verdict(), Verdict::Denied);
}

#[test]
fn an_exported_report_reads_back_with_its_rows_and_verdict() {
    let resolution = resolution();
    let policy = PolicyAttachment::parse(POLICY.as_bytes()).expect("policy");
    let project = SemanticId::parse_root("clinic").expect("id");
    let (model, ir, cref, pref) = (digest('a'), digest('b'), digest('c'), digest('d'));
    let entities = vec![EntityFields {
        id: "core.entity.user".to_owned(),
        fields: vec!["email".to_owned(), "tenant_id".to_owned()],
    }];
    let graph = EffectGraph {
        declared: vec![edge("core.entity.user/email", "update", true)],
        detected: vec![edge("core.entity.user/email", "emit-event", false)],
    };
    let analysis = analyze(&Inputs {
        project_id: &project,
        model_ref: ("0.2.16", &model),
        ir_ref: ("0.2.16", &ir),
        graph: &graph,
        entities: &entities,
        classification: &resolution,
        classification_ref: &cref,
        policy: &policy,
        policy_ref: &pref,
        generated_by: "lekalo-core",
        report_revision: "1.0.0",
        endpoint_exposures: &[],
    })
    .unwrap_or_else(|_| panic!("analysis runs"));
    let bytes = report_canonical_bytes(&analysis.report).unwrap_or_else(|_| panic!("fits"));
    let value = lekalo_core::json::parse_json(bytes.as_bytes()).expect("json");
    let reread = report_from_value(&value).unwrap_or_else(|_| panic!("reads back"));
    assert_eq!(reread.verdict(), analysis.report.verdict());
    assert_eq!(reread.flows().len(), analysis.report.flows().len());
    assert_eq!(reread.findings().len(), analysis.report.findings().len());
    assert_eq!(reread.inputs_complete(), analysis.report.inputs_complete());
    let again = report_canonical_bytes(&reread).unwrap_or_else(|_| panic!("fits"));
    assert_eq!(again, bytes);

    let refused = report_from_value(&JsonValue::Bool(true)).err().expect("refused");
    assert_eq!(refused.reason_ids(), ["classification.unknown-kind"]);
    let tampered = bytes.replace("\"verdict\":\"denied\"", "\"verdict\":\"maybe\"");
    let value = lekalo_core::json::parse_json(tampered.as_bytes()).expect("json");
    assert!(report_from_value(&value).is_err());
}

use lekalo_core::dataflow::version as flow;

#[test]
fn identity_parts_are_consistent() {
    assert_eq!(flow::IDENTITY, format!("{}@{}", flow::FAMILY, flow::VERSION));
    assert!(flow::SCHEMA_VERSION.ends_with(flow::VERSION));
    assert!(flow::IR_IDENTITY.starts_with("dev.lekalo.ir@"));
}

#[test]
fn bounds_match_the_recorded_owner_decisions() {
    assert_eq!(flow::MAX_FLOWS, 8192);
    assert_eq!(flow::MAX_FINDINGS, 1024);
    assert_eq!(flow::MAX_UNKNOWNS, 1024);
    assert_eq!(flow::MAX_PATH_HOPS, 64);
    assert_eq!(flow::MAX_OPEN_QUESTIONS, 256);
    assert_eq!(flow::MAX_CANONICAL_BYTES, 8 * 1024 * 1024);
}
