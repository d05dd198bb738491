use lekalo_core::diagnostics::set::{build, BuildError};
use lekalo_core::diagnostics::types::{Category, Severity};

#[test]
fn registry_backed_build_fills_identity_from_the_entry() {
    let diagnostic = build("cli.usage", None, None, Vec::new()).expect("builds");
    assert_eq!(diagnostic.id(), "cli.usage");
    assert_eq!(diagnostic.code(), "LEK-CLI-001");
    assert_eq!(diagnostic.severity(), Severity::Error);
    assert_eq!(diagnostic.category(), Category::Infrastructure);
    assert_eq!(diagnostic.message(), "Malformed command-line syntax.");
}

#[test]
fn unknown_rules_are_refused() {
    assert_eq!(
        build("loader.not-a-rule", None, None, Vec::new()),
        Err(BuildError::UnknownRule("loader.not-a-rule".to_owned()))
    );
}

use lekalo_core::diagnostics::item::SourceLocation;
use lekalo_core::diagnostics::set::DiagnosticSet;
use lekalo_core::diagnostics::types::Status;

fn located(id: &str, path: &str) -> lekalo_core::diagnostics::item::Diagnostic {
    let source = SourceLocation { path: Some(path.to_owned()), range: None };
    build(id, None, Some(source), Vec::new()).expect("builds")
}

#[test]
fn reason_ids_list_each_rule_once() {
    let set = DiagnosticSet::try_from_unsorted(
        vec![located("loader.json-parse", "a.yaml"), located("cli.usage", "b.yaml"), located("loader.json-parse", "c.yaml")],
        Status::Invalid,
    )
    .expect("allowed");
    assert_eq!(set.reason_ids(), ["loader.json-parse", "cli.usage"]);
}

use lekalo_core::diagnostics::item::{Position, Range};
use lekalo_core::diagnostics::set::SetError;
use lekalo_core::diagnostics::types::{DataValue, Scalar};

fn spanned(id: &str, path: &str, start: (usize, usize, usize), end: (usize, usize, usize)) -> lekalo_core::diagnostics::item::Diagnostic {
    let range = Range {
        start: Position { byte: start.0, line: start.1, column: start.2 },
        end: Position { byte: end.0, line: end.1, column: end.2 },
    };
    let source = SourceLocation { path: Some(path.to_owned()), range: Some(range) };
    build(id, None, Some(source), Vec::new()).expect("registered rule")
}

#[test]
fn sets_reject_rules_not_allowed_under_the_envelope_status() {
    let diagnostic = build("cli.usage", None, None, Vec::new()).expect("builds");
    assert!(matches!(
        DiagnosticSet::try_from_unsorted(vec![diagnostic], Status::Unsupported),
        Err(SetError::StatusNotAllowed(_))
    ));
}

#[test]
fn sorting_is_global_first_then_path_span_code_and_id() {
    let global = build("cli.usage", None, None, Vec::new()).expect("global");
    let located_a = spanned("loader.json-parse", "b.yaml", (5, 1, 6), (9, 1, 10));
    let located_b = spanned("loader.import-missing", "a.yaml", (0, 1, 1), (1, 1, 2));
    let set = DiagnosticSet::try_from_unsorted(vec![located_a, global, located_b], Status::Invalid)
        .expect("set builds");
    let ids: Vec<&str> = set.as_slice().iter().map(|d| d.id()).collect();
    assert_eq!(ids, ["cli.usage", "loader.import-missing", "loader.json-parse"]);
}

#[test]
fn exact_duplicates_collapse_but_different_data_stays() {
    let first = spanned("loader.json-parse", "a.yaml", (5, 1, 6), (9, 1, 10));
    let second = spanned("loader.json-parse", "a.yaml", (5, 1, 6), (9, 1, 10));
    let range = Range {
        start: Position { byte: 5, line: 1, column: 6 },
        end: Position { byte: 9, line: 1, column: 10 },
    };
    let source = SourceLocation { path: Some("a.yaml".to_owned()), range: Some(range) };
    let different_data = build(
        "loader.json-parse",
        None,
        Some(source),
        vec![("detail".to_owned(), DataValue::Token("unexpected-token".to_owned()))],
    )
    .expect("registered rule");
    let set = DiagnosticSet::try_from_unsorted(vec![first, second, different_data], Status::Invalid)
        .expect("set builds");
    assert_eq!(set.as_slice().len(), 2, "exact duplicate collapsed");
    assert_eq!(set.reason_ids(), ["loader.json-parse"], "reason ids are unique");
}

#[test]
fn nested_lists_normalize_by_unsigned_bytes() {
    let data = vec![(
        "cycle".to_owned(),
        DataValue::List(vec![Scalar::Token("m2".to_owned()), Scalar::Token("m1".to_owned())]),
    )];
    let diagnostic = build("loader.import-cycle", None, None, data).expect("registered");
    let set = DiagnosticSet::try_from_unsorted(vec![diagnostic], Status::Invalid).expect("set builds");
    match &set.as_slice()[0].data()[0].1 {
        DataValue::List(members) => assert_eq!(
            members,
            &vec![Scalar::Token("m1".to_owned()), Scalar::Token("m2".to_owned())]
        ),
        _ => panic!("list"),
    }
}

#[test]
fn list_members_order_by_tag_then_decimal_spelling() {
    let data = vec![(
        "cycle".to_owned(),
        DataValue::List(vec![
            Scalar::Flag(true),
            Scalar::Count(10),
            Scalar::Count(9),
            Scalar::Flag(false),
            Scalar::Token("z".to_owned()),
        ]),
    )];
    let diagnostic = build("loader.import-cycle", None, None, data).expect("registered");
    let set = DiagnosticSet::try_from_unsorted(vec![diagnostic], Status::Invalid).expect("set builds");
    match &set.as_slice()[0].data()[0].1 {
        DataValue::List(members) => assert_eq!(
            members,
            &vec![
                Scalar::Token("z".to_owned()),
                Scalar::Flag(false),
                Scalar::Count(10),
                Scalar::Count(9),
                Scalar::Flag(true),
            ]
        ),
        _ => panic!("list"),
    }
}

#[test]
fn oversized_sets_are_refused() {
    let many: Vec<_> = (0..257).map(|i| spanned("loader.json-parse", "a.yaml", (i, 1, 1), (i, 1, 1))).collect();
    assert_eq!(DiagnosticSet::try_from_unsorted(many, Status::Invalid), Err(SetError::OverLimit));
    let fits: Vec<_> = (0..256).map(|i| spanned("loader.json-parse", "a.yaml", (255 - i, 1, 1), (255 - i, 1, 1))).collect();
    let set = DiagnosticSet::try_from_unsorted(fits, Status::Invalid).expect("fits the bound");
    assert_eq!(set.as_slice().len(), 256);
    assert_eq!(set.as_slice()[0].start().unwrap().byte, 0);
}

#[test]
fn equal_keys_fall_back_to_the_rendered_data() {
    let b = build("cli.usage", None, None, vec![("detail".to_owned(), DataValue::Token("b".to_owned()))]).expect("builds");
    let a = build("cli.usage", None, None, vec![("detail".to_owned(), DataValue::Token("a".to_owned()))]).expect("builds");
    let set = DiagnosticSet::try_from_unsorted(vec![b, a], Status::Invalid).expect("set builds");
    let details: Vec<&DataValue> = set.as_slice().iter().map(|d| &d.data()[0].1).collect();
    assert_eq!(details, [&DataValue::Token("a".to_owned()), &DataValue::Token("b".to_owned())]);
}

#[test]
fn utf8_validation_matches_std() {
    let cases: Vec<&[u8]> = vec![
        b"plain ascii",
        "é中😀".as_bytes(),
        b"\xc0\xaf",
        b"\xed\xa0\x80",
        b"\xf4\x90\x80\x80",
        b"\xe4\xb8",
        b"\x80",
        b"\xf0\x9f\x98\x80tail",
        b"",
    ];
    for bytes in cases {
        assert_eq!(lekalo_core::text::is_utf8(bytes), std::str::from_utf8(bytes).is_ok(), "{:?}", bytes);
    }
}

#[test]
fn normalized_sets_do_not_depend_on_input_order() {
    let make = || vec![
        spanned("loader.json-parse", "b.yaml", (5, 1, 6), (9, 1, 10)),
        build("cli.usage", None, None, Vec::new()).expect("global"),
        spanned("loader.import-missing", "a.yaml", (0, 1, 1), (1, 1, 2)),
        spanned("loader.json-parse", "b.yaml", (5, 1, 6), (9, 1, 10)),
    ];
    let forward = DiagnosticSet::try_from_unsorted(make(), Status::Invalid).expect("set builds");
    let mut reversed_input = make();
    reversed_input.reverse();
    let reversed = DiagnosticSet::try_from_unsorted(reversed_input, Status::Invalid).expect("set builds");
    assert_eq!(forward, reversed);
    assert_eq!(forward.as_slice().len(), 3);
}
