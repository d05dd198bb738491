use lekalo_core::context::estimate::{digest, tokens, SPEC};
use lekalo_core::context::version::{
    FAMILY, IDENTITY, MAX_BUDGET_TOKENS, MAX_CLOSURE_DEPTH, MAX_CLOSURE_EDGES, MAX_CLOSURE_NODES,
    MAX_MANIFEST_ITEMS, MAX_ROOTS, SCHEMA_VERSION, VERSION,
};
use lekalo_core::digest::sha256_hex;

#[test]
fn identity_is_family_and_version() {
    assert_eq!(IDENTITY, format!("{FAMILY}@{VERSION}"));
    assert_eq!(FAMILY, "dev.lekalo.context");
    assert_eq!(VERSION, "1.0.0");
    assert_eq!(SCHEMA_VERSION, "lekalo/context/v1.0.0");
}

#[test]
fn limits_match_the_recorded_owner_decisions() {
    assert_eq!(MAX_BUDGET_TOKENS, 1_000_000);
    assert_eq!(MAX_ROOTS, 128);
    assert_eq!(MAX_MANIFEST_ITEMS, 50_000);
    assert_eq!(MAX_CLOSURE_DEPTH, 2);
    assert_eq!(MAX_CLOSURE_NODES, 2_000);
    assert_eq!(MAX_CLOSURE_EDGES, 10_000);
}

#[test]
fn digest_is_the_sha256_of_the_exact_spec() {
    assert_eq!(digest().len(), "sha256:".len() + 64);
    assert!(digest().starts_with("sha256:"));
    assert_eq!(digest(), format!("sha256:{}", sha256_hex(SPEC.as_bytes())));
}

#[test]
fn tokens_follow_the_recorded_rule() {
    assert_eq!(tokens(""), 0);
    assert_eq!(tokens("a"), 1);
    assert_eq!(tokens("abcd"), 1);
    assert_eq!(tokens("abcde"), 2);
    assert_eq!(tokens("abcdefgh"), 2);
    assert_eq!(tokens("abcdefghi"), 3);
}

#[test]
fn scalars_not_bytes_drive_the_estimate() {
    assert_eq!(tokens("éééé"), 1);
    assert_eq!(tokens("ééééé"), 2);
}

#[test]
fn the_spec_text_is_pinned() {
    assert_eq!(
        digest(),
        "sha256:".to_owned() + &sha256_hex(
            b"family=dev.lekalo.estimator profile=chars-4 version=1.0.0 rule=tokens:max(1,ceil(scalars/4)) unit=unicode-scalar scope=per-typed-fact content=semantic-values-joined-by-space offline=true deterministic=true format-independent=true"
        )
    );
}

use lekalo_core::context::select::{budget_walk, gaps, section_rank, Candidate, ExclusionReason, GapInputs};

#[test]
fn estimator_identity_is_stable() {
    assert_eq!(lekalo_core::context::estimate::IDENTITY, "dev.lekalo.estimator.chars-4@1.0.0");
}

fn candidate(id: &str, section: &str, tokens: u64) -> Candidate {
    Candidate { id: id.to_owned(), section: section.to_owned(), tokens }
}

#[test]
fn the_budget_walk_takes_what_still_fits_in_rank_order() {
    let candidates = vec![
        candidate("core.command.create_user", "symbol", 40),
        candidate("core.policy.admin", "policies", 30),
        candidate("effect:write", "effects", 50),
        candidate("dep:a", "dependencies", 20),
    ];
    let walk = budget_walk(&candidates, 100);
    let reasons: Vec<Option<ExclusionReason>> = walk.manifest.iter().map(|row| row.reason).collect();
    assert_eq!(reasons, [None, None, Some(ExclusionReason::Budget), None]);
    assert_eq!(walk.estimated, 90);
    assert_eq!(walk.minimum_required, 140);
    assert!(!walk.fits);
    assert_eq!(walk.manifest[2].section, "effects");
    let roomy = budget_walk(&candidates, 140);
    assert!(roomy.fits);
    assert_eq!(roomy.estimated, 140);
    assert!(roomy.manifest.iter().all(|row| row.reason.is_none()));
    let tight = budget_walk(&candidates, 1);
    assert_eq!(tight.estimated, 0);
    assert_eq!(ExclusionReason::Budget.as_str(), "budget");
}

#[test]
fn gaps_follow_the_closed_vocabulary_in_name_order() {
    let inputs = GapInputs {
        detected_effects: false,
        undescribed: vec!["core.command.create_user".to_owned()],
        has_policies: false,
        silent_operations: Vec::new(),
        has_scenarios: true,
        project_has_bindings: true,
        has_bindings: false,
        closure_complete: false,
    };
    let rows = gaps(&inputs);
    let names: Vec<&str> = rows.iter().map(|g| g.gap.as_str()).collect();
    assert_eq!(
        names,
        [
            "closure-bounded",
            "detected-effects-absent",
            "error-contracts-unrepresentable",
            "no-description",
            "no-policies",
            "no-relevant-bindings"
        ]
    );
    assert_eq!(rows[3].symbols, ["core.command.create_user".to_owned()]);
    assert_eq!(section_rank("types"), Some(7));
    assert_eq!(section_rank("prose"), None);
}

#[test]
fn larger_budgets_never_estimate_less_and_the_total_is_the_least_fitting_budget() {
    let candidates = vec![
        candidate("core.command.create_user", "symbol", 40),
        candidate("core.policy.admin", "policies", 30),
        candidate("effect:write", "effects", 50),
        candidate("dep:a", "dependencies", 20),
    ];
    let mut previous = 0;
    for budget in 1..=200 {
        let walk = budget_walk(&candidates, budget);
        assert!(walk.estimated >= previous, "budget {budget}");
        assert_eq!(walk.minimum_required, 140);
        assert_eq!(walk.fits, budget >= 140, "budget {budget}");
        previous = walk.estimated;
    }
    assert!(!budget_walk(&candidates, 139).fits);
    assert!(budget_walk(&candidates, 140).fits);
}

use lekalo_core::context::model::{CardFact, Contract, EdgeFact, EffectFact, Fact, WireField, WireType};

#[test]
fn fact_ids_and_estimator_content_follow_the_fixed_order() {
    let effect = Fact::Effect(EffectFact {
        operation: "core.command.create_user".to_owned(),
        kind: "create".to_owned(),
        action: Some("insert".to_owned()),
        resource_kind: "entity".to_owned(),
        resource: "core.user".to_owned(),
        field: Some("email".to_owned()),
        occurrence: 2,
        confidence: "high".to_owned(),
    });
    assert_eq!(effect.id(), "effect:create:core.command.create_user->entity:core.user.email#2");
    assert_eq!(effect.content(), "core.command.create_user create insert entity core.user email 2 high");
    assert_eq!(effect.tokens(), 17);

    let edge = Fact::Edge(EdgeFact {
        relation: "depends-on".to_owned(),
        from: "a.b".to_owned(),
        to: "c.d".to_owned(),
        occurrence: 0,
        confidence: "low".to_owned(),
    });
    assert_eq!(edge.id(), "edge:depends-on:a.b->c.d#0");
    assert_eq!(edge.content(), "depends-on a.b c.d 0 low");

    let card = Fact::Card(CardFact {
        qualified: "core.command.create_user".to_owned(),
        kind: "command".to_owned(),
        subkind: None,
        module: Some("core".to_owned()),
        version: Some(3),
        visibility: None,
        portability: None,
        derived_from: Vec::new(),
        description: Some("Create one user.".to_owned()),
        contract: Some(Contract::Command {
            input: vec![WireField {
                name: "email".to_owned(),
                required: true,
                ty: WireType::Optional(Box::new(WireType::List(Box::new(WireType::Ref("core.Email".to_owned()))))),
            }],
            effects: vec!["core.effect.insert_user".to_owned()],
        }),
    });
    assert_eq!(card.id(), "core.command.create_user");
    assert_eq!(
        card.content(),
        "command core.command.create_user core 3 Create one user. email required list<core.Email>? core.effect.insert_user"
    );
    let empty = Fact::Binding { id: String::new(), target: String::new() };
    assert_eq!(empty.content(), " ");
    assert_eq!(empty.tokens(), 1);
}

#[test]
fn fact_json_is_compact_with_byte_sorted_members() {
    let edge = Fact::Edge(EdgeFact {
        relation: "depends-on".to_owned(),
        from: "a.b".to_owned(),
        to: "c.d".to_owned(),
        occurrence: 0,
        confidence: "low".to_owned(),
    });
    assert_eq!(edge.json(), r#"{"confidence":"low","from":"a.b","occurrence":0,"relation":"depends-on","to":"c.d"}"#);
    let effect = Fact::Effect(EffectFact {
        operation: "core.command.create_user".to_owned(),
        kind: "create".to_owned(),
        action: None,
        resource_kind: "entity".to_owned(),
        resource: "core.user".to_owned(),
        field: Some("email".to_owned()),
        occurrence: 2,
        confidence: "high".to_owned(),
    });
    assert_eq!(
        effect.json(),
        r#"{"action":null,"confidence":"high","field":"email","kind":"create","occurrence":2,"operation":"core.command.create_user","resource":{"id":"core.user","kind":"entity"}}"#
    );
    let card = Fact::Card(CardFact {
        qualified: "core.Email".to_owned(),
        kind: "scalar".to_owned(),
        subkind: None,
        module: None,
        version: None,
        visibility: Some("public".to_owned()),
        portability: None,
        derived_from: Vec::new(),
        description: None,
        contract: Some(Contract::Query {
            reads: vec!["core.user".to_owned()],
            returns: Some(WireType::List(Box::new(WireType::Ref("core.User".to_owned())))),
        }),
    });
    assert_eq!(
        card.json(),
        r#"{"contract":{"reads":["core.user"],"returns":{"list":{"ref":"core.User"}}},"description":null,"id":"core.Email","kind":"scalar","module":null,"visibility":"public"}"#
    );
}

#[test]
fn fact_markdown_lines_start_with_the_fact() {
    let card = Fact::Card(CardFact {
        qualified: "core.command.create_user".to_owned(),
        kind: "command".to_owned(),
        subkind: None,
        module: Some("core".to_owned()),
        version: Some(2),
        visibility: None,
        portability: None,
        derived_from: vec!["core.a".to_owned(), "core.b".to_owned()],
        description: None,
        contract: Some(Contract::Command {
            input: vec![WireField {
                name: "email".to_owned(),
                required: true,
                ty: WireType::Optional(Box::new(WireType::Ref("core.Email".to_owned()))),
            }],
            effects: vec!["core.effect.insert_user".to_owned()],
        }),
    });
    assert_eq!(
        card.markdown(),
        [
            "- core.command.create_user (command)",
            "  module: core",
            "  version: 2",
            "  derived from: core.a, core.b",
            "  input email: core.Email? (required)",
            "  effects: core.effect.insert_user",
        ]
    );
    let effect = Fact::Effect(EffectFact {
        operation: "core.command.create_user".to_owned(),
        kind: "create".to_owned(),
        action: Some("insert".to_owned()),
        resource_kind: "entity".to_owned(),
        resource: "core.user".to_owned(),
        field: Some("email".to_owned()),
        occurrence: 1,
        confidence: "high".to_owned(),
    });
    assert_eq!(effect.markdown(), ["- create [insert] core.command.create_user -> entity:core.user#email (high)"]);
    let binding = Fact::Binding { id: "core.binding.node".to_owned(), target: "node".to_owned() };
    assert_eq!(binding.markdown(), ["- core.binding.node -> node"]);
}

#[test]
fn manifest_and_gap_rows_render_canonically() {
    use_rows();
}

fn use_rows() {
    let included = lekalo_core::context::select::ManifestRow {
        id: "core.user".to_owned(),
        section: "symbol".to_owned(),
        tokens: 12,
        reason: None,
    };
    assert_eq!(lekalo_core::context::model::manifest_row_json(&included), r#"{"id":"core.user","section":"symbol","tokens":12}"#);
    let excluded = lekalo_core::context::select::ManifestRow {
        id: "dep:a".to_owned(),
        section: "dependencies".to_owned(),
        tokens: 40,
        reason: Some(ExclusionReason::Budget),
    };
    assert_eq!(
        lekalo_core::context::model::manifest_row_json(&excluded),
        r#"{"id":"dep:a","reason":"budget","section":"dependencies"}"#
    );
    let gap = lekalo_core::context::select::Gap { gap: "no-detected-effects".to_owned(), symbols: Vec::new() };
    assert_eq!(lekalo_core::context::model::gap_json(&gap), r#"{"gap":"no-detected-effects"}"#);
    let gap = lekalo_core::context::select::Gap {
        gap: "undescribed".to_owned(),
        symbols: vec!["core.a".to_owned(), "x\ty".to_owned()],
    };
    assert_eq!(lekalo_core::context::model::gap_json(&gap), r#"{"gap":"undescribed","symbols":["core.a","x y"]}"#);
}

use lekalo_core::context::diagnostic::{input_invalid_set, plan_input_refusal, root_limit_refusal};
use lekalo_core::diagnostics::types::DataValue;

fn refusal_detail(set: &lekalo_core::diagnostics::set::DiagnosticSet) -> String {
    match &set.as_slice()[0].data()[0].1 {
        DataValue::Token(t) => t.clone(),
        other => panic!("unexpected {other:?}"),
    }
}

#[test]
fn plan_inputs_refuse_out_of_range_budgets_empty_scopes_and_too_many_roots() {
    let zero = plan_input_refusal(1, 0).expect("zero budget");
    assert_eq!(zero.reason_ids(), ["graph.input-invalid"]);
    assert_eq!(refusal_detail(&zero), "budget-out-of-range");
    assert_eq!(refusal_detail(&plan_input_refusal(0, 1_000_001).expect("too large")), "budget-out-of-range");
    assert_eq!(refusal_detail(&plan_input_refusal(0, 10).expect("empty")), "empty-scope");
    assert!(plan_input_refusal(1, 1_000_000).is_none());
    assert!(root_limit_refusal(128).is_none());
    assert_eq!(refusal_detail(&root_limit_refusal(129).expect("too many")), "root-limit-exceeded");
    let set = input_invalid_set(&"x".repeat(4_096));
    assert_eq!(set.as_slice()[0].data()[1].1, DataValue::Token("context-plan".to_owned()));
    assert_eq!(refusal_detail(&set).len(), 256);
}

use lekalo_core::context::capsule::{Capsule, SpanRow};

fn sample_capsule() -> Capsule {
    let candidates = vec![
        candidate("core.command.create_user", "symbol", 40),
        candidate("core.binding.node", "bindings", 70),
        candidate("edge:depends-on:a->b#0", "closure", 20),
    ];
    let walk = budget_walk(&candidates, 100);
    let sections = vec![
        ("symbol".to_owned(), vec![Fact::Binding { id: "core.command.create_user".to_owned(), target: "node".to_owned() }]),
        ("closure".to_owned(), vec![Fact::Edge(EdgeFact {
            relation: "depends-on".to_owned(),
            from: "a".to_owned(),
            to: "b".to_owned(),
            occurrence: 0,
            confidence: "high".to_owned(),
        })]),
    ];
    let gap_rows = vec![lekalo_core::context::select::Gap { gap: "no-effects".to_owned(), symbols: vec!["core.a".to_owned()] }];
    let spans = vec![SpanRow {
        id: "core.command.create_user".to_owned(),
        path: "lekalo/modules/core/commands.yaml".to_owned(),
        start: lekalo_core::diagnostics::item::Position { byte: 10, line: 2, column: 3 },
        end: lekalo_core::diagnostics::item::Position { byte: 20, line: 4, column: 1 },
    }];
    Capsule::new(
        Some("planner".to_owned()),
        "0.2.16".to_owned(),
        "sha256:abc".to_owned(),
        "symbol".to_owned(),
        100,
        vec!["core.command.create_user".to_owned()],
        sections,
        walk,
        gap_rows,
        true,
        spans,
    )
}

#[test]
fn capsule_projections_are_deterministic_and_split_the_manifest() {
    let capsule = sample_capsule();
    assert_eq!(capsule.candidate_count(), 3);
    assert_eq!(capsule.included_count(), 2);
    assert_eq!(capsule.excluded_count(), 1);
    assert!(!capsule.fits());
    assert_eq!(capsule.estimated_tokens(), 60);
    assert_eq!(capsule.minimum_required_tokens(), 130);
    assert_eq!(capsule.budget(), 100);
    assert_eq!(capsule.mode(), "symbol");
    assert_eq!(capsule.roots(), ["core.command.create_user".to_owned()]);
    let json = capsule.to_canonical_json();
    assert_eq!(json, sample_capsule().to_canonical_json());
    assert!(json.starts_with(r#"{"budget":{"estimated":60,"fits":false,"limit":100,"minimumRequired":130},"complete":true,"coverage":{"candidates":3,"excluded":1,"included":2},"estimator":{"digest":"sha256:"#));
    assert!(json.contains(r#""manifest":{"excluded":[{"id":"core.binding.node","reason":"budget","section":"bindings"}],"included":[{"id":"core.command.create_user","section":"symbol","tokens":40},{"id":"edge:depends-on:a->b#0","section":"closure","tokens":20}]}"#));
    assert!(json.contains(r#""project":"planner","roots":["core.command.create_user"],"schemaVersion":"lekalo/context/v1.0.0""#));
    assert!(json.ends_with(r#""spans":[{"id":"core.command.create_user","span":{"end":{"byte":20,"column":1,"line":4},"path":"lekalo/modules/core/commands.yaml","start":{"byte":10,"column":3,"line":2}}}]}"#));
    assert!(!json.ends_with('\n'));
    let markdown = capsule.to_markdown();
    assert_eq!(markdown, sample_capsule().to_markdown());
    let lines: Vec<&str> = markdown.lines().collect();
    assert_eq!(lines[0], "# context capsule");
    assert_eq!(lines[1], "- identity: dev.lekalo.context@1.0.0");
    assert_eq!(lines[5], "- project: planner");
    assert_eq!(lines[10], "- budget: limit 100, estimated 60, minimum required 130, fits false");
    assert_eq!(lines[11], "- coverage: 3 candidates, 2 included, 1 excluded");
    assert_eq!(lines[12], "- complete: true");
    assert_eq!(&lines[13..], [
        "",
        "## symbol",
        "- core.command.create_user -> node",
        "",
        "## closure",
        "- depends-on a -> b (high)",
        "",
        "## spans",
        "- core.command.create_user: lekalo/modules/core/commands.yaml:2:3-4:1",
        "",
        "## gaps",
        "- no-effects: core.a",
        "",
        "## excluded",
        "- core.binding.node (bindings, reason: budget)",
    ]);
    assert!(!markdown.ends_with('\n'));
}
