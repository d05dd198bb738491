use lekalo_core::diagnostics::provider::{
    is_unsafe_path, normalize, rejection_diagnostic, ProviderDiagnosticWire, ProviderRejection, WireError,
};
use lekalo_core::diagnostics::set::DiagnosticSet;
use lekalo_core::diagnostics::types::Status;

fn wire(id: &str, path: Option<&str>) -> ProviderDiagnosticWire {
    ProviderDiagnosticWire::new(
        id.to_owned(),
        None,
        path.map(|path| path.to_owned()),
        None,
        "com.example.provider:1.0.0".to_owned(),
        "E5123".to_owned(),
        Vec::new(),
    )
    .expect("wire")
}

#[test]
fn provider_original_code_is_namespaced_and_preserved() {
    let diagnostic = normalize(wire("adapter.diagnostic-invalid", None)).expect("normalizes");
    let (namespace, codes) = &diagnostic.metadata()[0];
    assert_eq!(namespace, "com.example.provider:1.0.0");
    assert_eq!(codes[0].0, "original_code");
    assert_eq!(codes[0].1.as_str(), "E5123");
    let set = DiagnosticSet::try_from_unsorted(vec![diagnostic], Status::Invalid)
        .expect("provider output is a valid set");
    assert_eq!(set.reason_ids(), ["adapter.diagnostic-invalid"]);
}

#[test]
fn unsafe_paths_are_refused_not_rewritten() {
    for path in [
        "../escape.yaml",
        "/absolute/project.yaml",
        "C:\\windows\\project.yaml",
        "a/../../b.yaml",
    ] {
        assert_eq!(
            normalize(wire("adapter.diagnostic-invalid", Some(path))),
            Err(ProviderRejection::UnsafePath),
            "{path}"
        );
    }
}

#[test]
fn unregistered_rules_are_refused() {
    assert_eq!(
        normalize(wire("loader.not-a-rule", None)),
        Err(ProviderRejection::UnknownRule)
    );
}

#[test]
fn over_limit_input_becomes_one_bounded_infrastructure_diagnostic() {
    let diagnostic = rejection_diagnostic("a provider proposed a rule that is not registered");
    assert_eq!(diagnostic.id(), "adapter.diagnostic-invalid");
    assert_eq!(diagnostic.code(), "LEK-ADP-001");
    let set = DiagnosticSet::try_from_unsorted(vec![diagnostic], Status::Invalid).expect("rejection is a valid set");
    assert_eq!(set.reason_ids(), ["adapter.diagnostic-invalid"]);
}

#[test]
fn safe_logical_paths_keep_their_location() {
    let diagnostic = normalize(wire("adapter.diagnostic-invalid", Some("lekalo/modules/a.yaml"))).expect("normalizes");
    assert_eq!(diagnostic.path(), Some("lekalo/modules/a.yaml"));
    assert!(!is_unsafe_path("a/.hidden/b.yaml"));
    assert!(is_unsafe_path("a/./b.yaml"));
    assert!(is_unsafe_path(""));
    assert!(is_unsafe_path("a/b\u{7}.yaml"));
}

#[test]
fn wires_refuse_over_limit_and_malformed_parts() {
    let long_id = "x".repeat(129);
    let refused = ProviderDiagnosticWire::new(
        long_id,
        None,
        None,
        None,
        "com.example:1.0.0".to_owned(),
        "E1".to_owned(),
        Vec::new(),
    );
    assert_eq!(refused, Err(WireError::IdOverLimit));
    let refused = ProviderDiagnosticWire::new(
        "adapter.diagnostic-invalid".to_owned(),
        Some("s".repeat(257)),
        None,
        None,
        "com.example:1.0.0".to_owned(),
        "E1".to_owned(),
        Vec::new(),
    );
    assert_eq!(refused, Err(WireError::SymbolOverLimit));
    let long_data = rejection_diagnostic(&"r".repeat(1000));
    assert_eq!(long_data.data()[0].0, "reason");
}
