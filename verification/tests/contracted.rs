use lekalo_core::contracted::version::{is_adapter_id, is_external_id, is_sha256, is_support_path};

#[test]
fn sha256_grammar_is_exact() {
    assert!(is_sha256(&format!("sha256:{}", "a".repeat(64))));
    assert!(!is_sha256(&format!("sha256:{}", "A".repeat(64))));
    assert!(!is_sha256(&format!("sha256:{}", "a".repeat(63))));
    assert!(!is_sha256("a".repeat(64).as_str()));
}

#[test]
fn adapter_ids_are_bounded_and_lowercase() {
    assert!(is_adapter_id("lekalo-target-node-typescript"));
    assert!(!is_adapter_id("-leading"));
    assert!(!is_adapter_id("UPPER"));
    assert!(!is_adapter_id(&"a".repeat(129)));
}

#[test]
fn external_ids_reject_controls_and_padding() {
    assert!(is_external_id("npm test -- suite"));
    assert!(!is_external_id(" line"));
    assert!(!is_external_id("line\n"));
    assert!(!is_external_id(&"x".repeat(129)));
}

#[test]
fn support_paths_confine_to_the_generated_home() {
    assert!(is_support_path(".lekalo/generated/openapi/create-task.json"));
    assert!(is_support_path(".lekalo/generated/types.ts"));
    assert!(!is_support_path("src/handler.ts"));
    assert!(!is_support_path("../escape.ts"));
    assert!(!is_support_path(".lekalo/generated/"));
    assert!(!is_support_path(".lekalo/generated/a//b.ts"));
    assert!(!is_support_path(".lekalo/generated/A.ts"));
}

#[test]
fn support_paths_refuse_dot_segments() {
    assert!(!is_support_path(".lekalo/generated/./a.ts"));
    assert!(!is_support_path(".lekalo/generated/a/../b.ts"));
    assert!(is_support_path(".lekalo/generated/a/.../b.ts"));
}

use lekalo_core::contracted::diagnostic::{
    bounded, declaration_invalid_set, declaration_limit_set, registry_io_set, selector_unknown_set,
    try_coverage_item, try_drift_item, try_stale_artifact_item, unknown_module_set, unknown_symbol_set,
};
use lekalo_core::diagnostics::types::DataValue;

#[test]
fn drift_items_carry_the_registered_rule() {
    let item = try_drift_item("planner.focus_task", "fingerprint-mismatch").expect("item");
    assert_eq!(item.id(), "contracted.binding-drift");
}

#[test]
fn stale_artifact_items_carry_the_registered_rule() {
    let item = try_stale_artifact_item(".lekalo/generated/openapi/planner.json").expect("item");
    assert_eq!(item.id(), "contracted.stale-artifact");
}

#[test]
fn unknown_modules_and_symbols_fail_closed() {
    let set = unknown_module_set("ghost");
    assert_eq!(set.reason_ids()[0], "contracted.unknown-module");
    let set = unknown_symbol_set("planner.ghost");
    assert_eq!(set.reason_ids()[0], "contracted.unknown-symbol");
}

#[test]
fn bounded_echoes_respect_the_wire_bound() {
    let long = "x".repeat(1000);
    assert_eq!(bounded(&long).len(), 256);
}

#[test]
fn declaration_sets_carry_sorted_bounded_data() {
    let set = declaration_invalid_set("unknown-key", Some("extra"));
    let item = &set.as_slice()[0];
    assert_eq!(item.id(), "contracted.declaration-invalid");
    assert_eq!(item.code(), "LEK-CTR-001");
    assert_eq!(item.data()[0].0, "detail");
    assert_eq!(item.data()[0].1, DataValue::Token("unknown-key".to_owned()));
    assert_eq!(item.data()[1].1, DataValue::Token("extra".to_owned()));
    let set = declaration_limit_set("symbols", 4097);
    let item = &set.as_slice()[0];
    assert_eq!(item.data()[0], ("found".to_owned(), DataValue::Count(4097)));
    assert_eq!(item.data()[1], ("limit".to_owned(), DataValue::Token("symbols".to_owned())));
    let long = "y".repeat(300);
    let set = registry_io_set(&long);
    assert_eq!(set.as_slice()[0].data()[0].1, DataValue::Token("y".repeat(256)));
}

#[test]
fn gate_items_echo_their_subject_as_the_symbol() {
    let item = try_coverage_item("planner.focus_task").expect("item");
    assert_eq!(item.id(), "contracted.coverage-missing");
    assert_eq!(item.data()[0].1, DataValue::Token("no-native-test".to_owned()));
    let set = selector_unknown_set("planner.ghost");
    assert_eq!(set.reason_ids(), ["contracted.unknown-symbol"]);
    assert_eq!(bounded("short"), "short");
}

use lekalo_core::contracted::types::{SupportKind, SupportLifecycle, SymbolKind};
use lekalo_core::contracted::wire::parse_declaration_bytes;
use lekalo_core::contracted::version::MAX_REGISTRY_BYTES;

fn declaration(symbols: &str, artifacts: &str) -> String {
    format!(
        r#"{{
  "schemaVersion": "lekalo/contracted-declaration/v1.0.0",
  "adapter": {{"id": "lekalo-target-node-typescript", "version": "1.2.3"}},
  "project": "planner",
  "revision": "sha256:{rev}",
  "symbols": [{symbols}],
  "artifacts": [{artifacts}]
}}"#,
        rev = "a".repeat(64)
    )
}

const FOCUS: &str = r#"{
    "id": "planner.focus_task",
    "kind": "command",
    "source": {"path": "src/handlers/focus.ts", "line": 12},
    "signature": {
      "inputs": [{"name": "task_id", "type": "planner.TaskId", "required": true}],
      "output": "planner.Task?",
      "reads": ["planner.task", "planner.board", "planner.task"]
    },
    "effects": [
      {"kind": "update", "subject": "planner.task"},
      {"kind": "emit-event", "subject": "planner.task_focused"},
      {"kind": "update", "subject": "planner.task"}
    ]
  }"#;

const OPENAPI: &str = r#"{"symbol": "planner.focus_task", "kind": "openapi", "path": ".lekalo/generated/openapi/planner.json", "lifecycle": "generated"}"#;

fn refusal_detail(bytes: &[u8]) -> (String, Vec<String>) {
    let set = parse_declaration_bytes(bytes).expect_err("refused");
    let item = &set.as_slice()[0];
    let data: Vec<String> = item
        .data()
        .iter()
        .map(|(_, value)| match value {
            DataValue::Token(t) => t.clone(),
            DataValue::Count(n) => n.to_string(),
            _ => String::new(),
        })
        .collect();
    (item.id().to_owned(), data)
}

#[test]
fn declarations_normalize_reads_and_effects() {
    let text = declaration(FOCUS, OPENAPI);
    let doc = parse_declaration_bytes(text.as_bytes()).expect("valid declaration");
    assert_eq!(doc.adapter.id, "lekalo-target-node-typescript");
    assert_eq!(doc.adapter.digest, None);
    assert_eq!(doc.project, "planner");
    let symbol = &doc.symbols[0];
    assert_eq!(symbol.kind, SymbolKind::Command);
    assert_eq!(symbol.source.line, Some(12));
    let signature = symbol.signature.as_ref().expect("signature");
    assert_eq!(signature.inputs[0].name, "task_id");
    assert!(signature.inputs[0].required);
    assert_eq!(signature.output.as_deref(), Some("planner.Task?"));
    assert_eq!(signature.reads, ["planner.board".to_owned(), "planner.task".to_owned()]);
    let effects: Vec<(&str, &str)> = symbol.effects.iter().map(|e| (e.kind.as_str(), e.subject.as_str())).collect();
    assert_eq!(effects, [("emit-event", "planner.task_focused"), ("update", "planner.task")]);
    assert_eq!(doc.artifacts[0].kind, SupportKind::Openapi);
    assert_eq!(doc.artifacts[0].lifecycle, SupportLifecycle::Generated);
}

#[test]
fn declarations_refuse_the_first_violation() {
    let extra = declaration(FOCUS, OPENAPI).replacen("\"project\"", "\"extra\": 1, \"project\"", 1);
    assert_eq!(
        refusal_detail(extra.as_bytes()),
        ("contracted.declaration-invalid".to_owned(), vec!["unknown-key".to_owned(), "extra".to_owned()])
    );
    let twice = declaration(&format!("{FOCUS},{FOCUS}"), "");
    assert_eq!(refusal_detail(twice.as_bytes()).1, ["duplicate-id", "planner.focus_task"]);
    let model_home = declaration(&FOCUS.replace("src/handlers/focus.ts", "lekalo/modules/planner.yaml"), "");
    assert_eq!(refusal_detail(model_home.as_bytes()).1[0], "source-path");
    let escaping = declaration(&FOCUS.replace("src/handlers/focus.ts", "../outside.ts"), "");
    assert_eq!(refusal_detail(escaping.as_bytes()).1[0], "source-path");
    let orphan = declaration(FOCUS, &OPENAPI.replace("\"symbol\": \"planner.focus_task\"", "\"symbol\": \"planner.ghost\""));
    assert_eq!(refusal_detail(orphan.as_bytes()).1, ["unresolved-artifact-symbol", "planner.ghost"]);
    let bad_kind = declaration(&FOCUS.replace("\"emit-event\"", "\"teleport\""), "");
    assert_eq!(refusal_detail(bad_kind.as_bytes()).1, ["effect-kind", "teleport"]);
    assert_eq!(refusal_detail(b"{not json").1, ["invalid-json"]);
    assert_eq!(refusal_detail(&[0xff, 0xfe]).1, ["invalid-encoding"]);
    let huge = vec![b' '; MAX_REGISTRY_BYTES + 1];
    let (id, data) = refusal_detail(&huge);
    assert_eq!(id, "contracted.declaration-limit");
    assert_eq!(data, [(MAX_REGISTRY_BYTES + 1).to_string(), "declaration-bytes".to_owned()]);
}

use lekalo_core::contracted::types::{ConformedRegistry, DriftState, HistoryEvent};
use lekalo_core::contracted::update::{update_registry, ProjectFacts};

fn planner_facts() -> ProjectFacts {
    ProjectFacts {
        project: "planner".to_owned(),
        modules: vec!["planner".to_owned()],
        definitions: vec![
            ("planner.focus_task".to_owned(), "command".to_owned()),
            ("planner.task".to_owned(), "entity".to_owned()),
        ],
    }
}

#[test]
fn updates_record_new_symbols_and_refresh_known_ones() {
    let text = declaration(FOCUS, OPENAPI);
    let (registry, receipt) = update_registry(&planner_facts(), text.as_bytes(), None).expect("merges");
    assert_eq!(registry.project, "planner");
    assert_eq!(registry.mode, "contracted");
    assert_eq!(receipt.recorded, ["planner.focus_task".to_owned()]);
    assert_eq!(receipt.symbols, 1);
    assert_eq!(receipt.artifacts, 1);
    let record = &registry.symbols[0];
    assert_eq!(record.state, DriftState::Conformant);
    assert_eq!(record.history.len(), 1);
    assert_eq!(record.history[0].event, HistoryEvent::Recorded);
    assert_eq!(record.provenance.adapter, "lekalo-target-node-typescript");

    let entity = r#"{"id": "planner.task", "kind": "entity", "source": {"path": "src/model/task.ts"}}"#;
    let again = declaration(&format!("{entity},{}", FOCUS.replace("\"line\": 12", "\"line\": 40")), "");
    let (updated, receipt) =
        update_registry(&planner_facts(), again.as_bytes(), Some(registry.clone())).expect("merges again");
    assert_eq!(receipt.recorded, ["planner.task".to_owned()]);
    let ids: Vec<&str> = updated.symbols.iter().map(|s| s.id.as_str()).collect();
    assert_eq!(ids, ["planner.focus_task", "planner.task"]);
    assert_eq!(updated.symbols[0].source.line, Some(40));
    assert_eq!(updated.symbols[0].history.len(), 1);
    assert_eq!(updated.artifacts.len(), 1);
}

#[test]
fn updates_refuse_foreign_and_mismatched_declarations() {
    let text = declaration(FOCUS, OPENAPI);
    let mut foreign = planner_facts();
    foreign.project = "clinic".to_owned();
    let set = update_registry(&foreign, text.as_bytes(), None).expect_err("foreign project");
    assert_eq!(set.reason_ids(), ["contracted.declaration-invalid"]);
    let mut no_module = planner_facts();
    no_module.modules = vec!["other".to_owned()];
    let set = update_registry(&no_module, text.as_bytes(), None).expect_err("unknown module");
    assert_eq!(set.reason_ids(), ["contracted.unknown-module"]);
    let mut wrong_kind = planner_facts();
    wrong_kind.definitions[0].1 = "query".to_owned();
    let set = update_registry(&wrong_kind, text.as_bytes(), None).expect_err("kind mismatch");
    assert_eq!(set.as_slice()[0].data()[0].1, DataValue::Token("kind-mismatch".to_owned()));
    let unsigned = declaration(&FOCUS.replace("\"signature\"", "\"fingerprint\": null, \"ignored\""), "");
    assert!(update_registry(&planner_facts(), unsigned.as_bytes(), None).is_err());
    let empty = ConformedRegistry::empty("planner", lekalo_core::contracted::types::AdapterIdentity {
        id: "x".to_owned(),
        version: "1.0.0".to_owned(),
        digest: None,
    }, "sha256:0");
    assert!(empty.symbols.is_empty());
}

#[test]
fn the_echo_bound_counts_utf8_bytes() {
    let value = "é".repeat(300);
    let echo = lekalo_core::contracted::diagnostic::bounded(&value);
    assert_eq!(echo.len(), 256);
    assert_eq!(echo.chars().count(), 128);
    let ascii = "a".repeat(300);
    assert_eq!(lekalo_core::contracted::diagnostic::bounded(&ascii).len(), 256);
    assert_eq!(lekalo_core::contracted::diagnostic::bounded("short"), "short");
}

use lekalo_core::contracted::persist::{accept_loaded_registry, frame_registry_rendering, settle_registry_bytes};

fn stored_registry() -> ConformedRegistry {
    ConformedRegistry::empty("planner", lekalo_core::contracted::types::AdapterIdentity {
        id: "x".to_owned(),
        version: "1.0.0".to_owned(),
        digest: None,
    }, "rev-1")
}

#[test]
fn stored_registry_bytes_must_be_their_own_canonical_rendering() {
    let bytes = b"{\"registry\":1}";
    let ok = settle_registry_bytes(bytes, Some(stored_registry()), Some("{\"registry\":1}".to_owned()))
        .unwrap_or_else(|_| panic!("canonical"));
    assert_eq!(ok.project, "planner");
    let refused = settle_registry_bytes(bytes, Some(stored_registry()), Some("{\"registry\": 1}".to_owned()))
        .err()
        .expect("noncanonical");
    assert_eq!(refused.reason_ids(), ["contracted.registry-io"]);
    assert_eq!(refused.as_slice()[0].data()[0].1, DataValue::Token("registry-noncanonical".to_owned()));
    let refused = settle_registry_bytes(bytes, None, None).err().expect("malformed");
    assert_eq!(refused.as_slice()[0].data()[0].1, DataValue::Token("registry-malformed".to_owned()));
    let mut foreign = stored_registry();
    foreign.schema_version = "other/v0".to_owned();
    let refused = settle_registry_bytes(bytes, Some(foreign), None).err().expect("identity");
    assert_eq!(refused.as_slice()[0].data()[0].1, DataValue::Token("registry-identity".to_owned()));
    let big = vec![b' '; MAX_REGISTRY_BYTES + 1];
    let refused = settle_registry_bytes(&big, None, None).err().expect("too large");
    assert_eq!(refused.reason_ids(), ["contracted.declaration-limit"]);
    assert!(frame_registry_rendering(None).is_err());
    assert_eq!(frame_registry_rendering(Some("{}".to_owned())).unwrap_or_else(|_| panic!("fits")), "{}");
}

#[test]
fn a_loaded_registry_must_belong_to_the_project() {
    assert!(accept_loaded_registry(stored_registry(), "planner").is_ok());
    let refused = accept_loaded_registry(stored_registry(), "clinic").err().expect("other project");
    assert_eq!(refused.as_slice()[0].data()[0].1, DataValue::Token("project-mismatch".to_owned()));
    let mut foreign = stored_registry();
    foreign.mode = "imported".to_owned();
    let refused = accept_loaded_registry(foreign, "planner").err().expect("foreign mode");
    assert_eq!(refused.as_slice()[0].data()[0].1, DataValue::Token("registry-identity".to_owned()));
}

use lekalo_core::contracted::check::{check_registry, CanonicalMembers, FileEvidence, FileState};

fn checked_registry() -> ConformedRegistry {
    let text = declaration(FOCUS, OPENAPI);
    let (registry, _) = update_registry(&planner_facts(), text.as_bytes(), None).expect("merges");
    registry
}

fn openapi_present() -> Vec<FileEvidence> {
    vec![FileEvidence {
        path: ".lekalo/generated/openapi/planner.json".to_owned(),
        state: FileState::Digest(format!("sha256:{}", "c".repeat(64))),
    }]
}

#[test]
fn a_bound_operation_without_coverage_and_a_missing_artifact_drift() {
    let registry = checked_registry();
    let set = check_registry(&planner_facts(), &Vec::new(), &registry, None, &Vec::new()).err().expect("drift");
    let mut ids = set.reason_ids();
    ids.sort();
    assert_eq!(ids, ["contracted.coverage-missing", "contracted.stale-artifact"]);
    assert_eq!(set.as_slice().len(), 2);
}

#[test]
fn a_covered_binding_without_fingerprint_is_unknown_and_passes() {
    let mut registry = checked_registry();
    registry.symbols[0].native_tests = vec!["native:focus".to_owned()];
    let receipt = check_registry(&planner_facts(), &Vec::new(), &registry, Some("planner"), &openapi_present())
        .unwrap_or_else(|_| panic!("clean"));
    assert_eq!(receipt.status, "valid");
    assert_eq!(receipt.mode, "check");
    assert_eq!(receipt.module.as_deref(), Some("planner"));
    assert_eq!(receipt.symbols, 1);
    assert_eq!(receipt.unknown, 1);
    assert_eq!(receipt.conformant, 0);
    assert_eq!(receipt.artifacts, 1);
    assert!(receipt.drifts.is_empty());
}

#[test]
fn fingerprints_signatures_and_unbound_operations_drift() {
    let mut registry = checked_registry();
    registry.symbols[0].native_tests = vec!["native:focus".to_owned()];
    let digest = format!("sha256:{}", "d".repeat(64));
    registry.symbols[0].fingerprint = Some(digest.clone());
    let mut evidence = openapi_present();
    evidence.push(FileEvidence { path: "src/handlers/focus.ts".to_owned(), state: FileState::Digest(digest.clone()) });
    let receipt = check_registry(&planner_facts(), &Vec::new(), &registry, None, &evidence)
        .unwrap_or_else(|_| panic!("clean"));
    assert_eq!(receipt.conformant, 1);

    evidence[1].state = FileState::Digest(format!("sha256:{}", "e".repeat(64)));
    let set = check_registry(&planner_facts(), &Vec::new(), &registry, None, &evidence).err().expect("stale");
    assert_eq!(set.reason_ids(), ["contracted.binding-drift"]);
    assert_eq!(set.as_slice()[0].data()[0].1, DataValue::Token("fingerprint-mismatch".to_owned()));

    evidence[1].state = FileState::OverBound;
    let receipt = check_registry(&planner_facts(), &Vec::new(), &registry, None, &evidence)
        .unwrap_or_else(|_| panic!("an over-bound source is unknown evidence, not drift"));
    assert_eq!(receipt.unknown, 1);
    assert_eq!(receipt.stale, 0);
    evidence[1].state = FileState::Missing;
    let set = check_registry(&planner_facts(), &Vec::new(), &registry, None, &evidence).err().expect("missing");
    assert_eq!(set.as_slice()[0].data()[0].1, DataValue::Token("source-missing".to_owned()));
    evidence[1].state = FileState::Digest(digest);
    let claim = registry.symbols[0].signature.clone().expect("signature");
    let mut canonical = claim.clone();
    canonical.output = None;
    let members = vec![CanonicalMembers {
        id: "planner.focus_task".to_owned(),
        signature: Some(canonical),
        effects: registry.symbols[0].effects.clone(),
    }];
    let set = check_registry(&planner_facts(), &members, &registry, None, &evidence).err().expect("signature");
    assert_eq!(set.as_slice()[0].data()[0].1, DataValue::Token("signature".to_owned()));
    let same = vec![CanonicalMembers {
        id: "planner.focus_task".to_owned(),
        signature: Some(claim),
        effects: registry.symbols[0].effects.clone(),
    }];
    assert!(check_registry(&planner_facts(), &same, &registry, None, &evidence).is_ok());

    let mut facts = planner_facts();
    facts.definitions.push(("planner.archive_task".to_owned(), "command".to_owned()));
    let set = check_registry(&facts, &same, &registry, Some("planner"), &evidence).err().expect("unbound");
    assert_eq!(set.as_slice()[0].data()[0].1, DataValue::Token("unimplemented".to_owned()));
    assert!(check_registry(&facts, &same, &registry, None, &evidence).is_ok());
}

#[test]
fn a_check_scoped_to_an_undeclared_module_is_refused() {
    let registry = checked_registry();
    let set = check_registry(&planner_facts(), &Vec::new(), &registry, Some("clinic"), &Vec::new())
        .err()
        .expect("unknown module");
    assert_eq!(set.reason_ids(), ["contracted.unknown-module"]);
}

use lekalo_core::contracted::attach::support;

#[test]
fn support_registers_owned_generated_artifacts() {
    let registry = checked_registry();
    let path = ".lekalo/generated/tests/focus.test.ts";
    let refused = support(Ok(Some(checked_registry())), "planner.focus_task", SupportKind::TestSkeleton, "src/focus.ts",
        SupportLifecycle::Scaffolded, None).err().expect("outside the generated home");
    assert_eq!(refused.as_slice()[0].data()[0].1, DataValue::Token("support-path-refused".to_owned()));
    let refused = support(Ok(Some(checked_registry())), "planner.focus_task", SupportKind::TestSkeleton, path,
        SupportLifecycle::Checked, Some("sha256:nope")).err().expect("bad digest");
    assert_eq!(refused.as_slice()[0].data()[0].1, DataValue::Token("artifact-digest".to_owned()));
    let refused = support(Ok(None), "planner.focus_task", SupportKind::TestSkeleton, path, SupportLifecycle::Scaffolded, None)
        .err()
        .expect("no registry");
    assert_eq!(refused.reason_ids(), ["contracted.registry-io"]);
    let refused = support(Ok(Some(checked_registry())), "planner.ghost", SupportKind::TestSkeleton, path,
        SupportLifecycle::Scaffolded, None).err().expect("unknown owner");
    assert_eq!(refused.reason_ids(), ["contracted.unknown-symbol"]);

    let (updated, receipt) = support(Ok(Some(registry)), "planner.focus_task", SupportKind::TestSkeleton, path,
        SupportLifecycle::Scaffolded, None).unwrap_or_else(|_| panic!("registered"));
    assert_eq!(receipt.mode, "support");
    let paths: Vec<&str> = updated.artifacts.iter().map(|a| a.path.as_str()).collect();
    assert_eq!(paths, [".lekalo/generated/openapi/planner.json", path]);
    let digest = format!("sha256:{}", "f".repeat(64));
    let (again, _) = support(Ok(Some(updated)), "planner.focus_task", SupportKind::TestSkeleton, path,
        SupportLifecycle::Checked, Some(&digest)).unwrap_or_else(|_| panic!("replaced"));
    assert_eq!(again.artifacts.len(), 2);
    assert_eq!(again.artifacts[1].lifecycle, SupportLifecycle::Checked);
    assert_eq!(again.artifacts[1].digest.as_deref(), Some(digest.as_str()));
}

use lekalo_core::contracted::attach::attach;

#[test]
fn attaching_the_same_ids_twice_changes_nothing() {
    let tests = vec!["t:b".to_owned(), "t:a".to_owned(), "t:b".to_owned()];
    let gates = vec!["g:1".to_owned()];
    let (first, receipt, changed) =
        attach(checked_registry(), "planner.focus_task", &tests, &gates).unwrap_or_else(|_| panic!("attaches"));
    assert!(changed);
    assert_eq!(receipt.native_tests, ["t:a".to_owned(), "t:b".to_owned()]);
    assert_eq!(receipt.gates, ["g:1".to_owned()]);
    let (second, again, changed_again) =
        attach(first.clone(), "planner.focus_task", &tests, &gates).unwrap_or_else(|_| panic!("attaches again"));
    assert!(!changed_again);
    assert_eq!(second, first);
    assert_eq!(again, receipt);
}
