use lekalo_core::cache::canonical::{is_digest, sha256_digest};
use lekalo_core::cache::key::{Key, RecordKind};
use lekalo_core::cache::record::{Binding, DependencyRole, PayloadField, PayloadValue, Record};
use lekalo_core::cache::version;

const HEX: &str = "sha256:0000000000000000000000000000000000000000000000000000000000000000";
const HEX1: &str = "sha256:1111111111111111111111111111111111111111111111111111111111111111";

fn hex(suffix: u8) -> String {
    format!("sha256:{suffix:064x}")
}

#[test]
fn digests_are_prefixed_lowercase_hex() {
    let digest = sha256_digest(b"abc");
    assert_eq!(
        digest,
        "sha256:ba7816bf8f01cfea414140de5dae2223b00361a396177a9cb410ff61f20015ad"
    );
    assert!(is_digest(&digest));
    assert!(!is_digest("sha256:BA7816BF"));
    assert!(!is_digest(
        "sha7816bf8f01cfea414140de5dae2223b00361a396177a9cb410ff61f20015ad"
    ));
    assert!(!is_digest("sha256:7816bf"));
}

#[test]
fn source_keys_embed_path_and_content_digest() {
    let key = Key::Source {
        path: "lekalo/modules/planner/entities.yaml".to_owned(),
        raw_digest: HEX.to_owned(),
        normalized_digest: HEX.to_owned(),
    };
    assert_eq!(key.kind(), RecordKind::Source);
    assert!(key.is_well_formed());
    let again = key.digest();
    assert_eq!(key.digest(), again);
    assert!(again.starts_with("sha256:"));
}

#[test]
fn different_content_changes_the_key_digest() {
    let first = Key::Source {
        path: "a.yaml".to_owned(),
        raw_digest: hex(1),
        normalized_digest: HEX.to_owned(),
    };
    let second = Key::Source {
        path: "a.yaml".to_owned(),
        raw_digest: hex(2),
        normalized_digest: HEX.to_owned(),
    };
    assert_ne!(first.digest(), second.digest());
}

#[test]
fn ir_keys_require_sorted_unique_digest_sets() {
    let ok = Key::IrFragment {
        model_version: "1.0.0".to_owned(),
        parsed_digests: vec![hex(1), hex(2)],
    };
    assert!(ok.is_well_formed());
    let unsorted = Key::IrFragment {
        model_version: "1.0.0".to_owned(),
        parsed_digests: vec![hex(2), hex(1)],
    };
    assert!(!unsorted.is_well_formed());
    let duplicated = Key::IrFragment {
        model_version: "1.0.0".to_owned(),
        parsed_digests: vec![hex(1), hex(1)],
    };
    assert!(!duplicated.is_well_formed());
    let wrong_version = Key::IrFragment {
        model_version: "2.0.0".to_owned(),
        parsed_digests: vec![hex(1)],
    };
    assert!(!wrong_version.is_well_formed());
}

#[test]
fn hostile_paths_and_digests_are_not_well_formed() {
    let backslash = Key::Source {
        path: "lekalo\\planner.yaml".to_owned(),
        raw_digest: HEX.to_owned(),
        normalized_digest: HEX.to_owned(),
    };
    assert!(!backslash.is_well_formed());
    let too_long = Key::Source {
        path: "a/".repeat(600),
        raw_digest: HEX.to_owned(),
        normalized_digest: HEX.to_owned(),
    };
    assert!(!too_long.is_well_formed());
    let bad_digest = Key::Source {
        path: "a.yaml".to_owned(),
        raw_digest: "sha512:xyz".to_owned(),
        normalized_digest: HEX.to_owned(),
    };
    assert!(!bad_digest.is_well_formed());
}

#[test]
fn kind_wire_round_trip_covers_the_closed_vocabulary() {
    for kind in [
        RecordKind::Source,
        RecordKind::ParsedFragment,
        RecordKind::IrFragment,
        RecordKind::GraphFragment,
        RecordKind::EffectFragment,
        RecordKind::AdapterCapability,
        RecordKind::AdapterResult,
        RecordKind::ArtifactManifestKey,
        RecordKind::ContextKey,
    ] {
        assert_eq!(RecordKind::parse(kind.as_str()), Some(kind));
    }
    assert_eq!(RecordKind::parse("wallet"), None);
}

#[test]
fn key_digests_hash_the_canonical_sorted_key_bytes() {
    let key = Key::Context {
        context_schema_digest: hex(1),
        scope_digest: hex(2),
        profile_digest: hex(3),
        budget: 4000,
    };
    assert!(key.is_well_formed());
    let canonical = format!(
        "{{\"budget\":4000,\"contextSchemaDigest\":\"{}\",\"kind\":\"context-key\",\"profileDigest\":\"{}\",\"scopeDigest\":\"{}\"}}",
        hex(1),
        hex(3),
        hex(2)
    );
    assert_eq!(key.digest(), sha256_digest(canonical.as_bytes()));
    let zero = Key::Context {
        context_schema_digest: hex(1),
        scope_digest: hex(2),
        profile_digest: hex(3),
        budget: 0,
    };
    assert!(!zero.is_well_formed());
}

fn sample_record() -> Record {
    let key = Key::Source {
        path: "lekalo/project.yaml".to_owned(),
        raw_digest: HEX1.to_owned(),
        normalized_digest: sha256_digest(b"normalized"),
    };
    Record::new(
        RecordKind::Source,
        key,
        Binding::pipeline(),
        PayloadValue::new(HEX1.to_owned(), Vec::new()),
    )
    .sealed()
}

#[test]
fn sealed_records_validate_and_carry_exact_digests() {
    let record = sample_record();
    assert!(record.validate());
    assert_eq!(record.payload_digest, record.payload.value.digest());
}

#[test]
fn corrupted_digests_are_rejected_before_typed_use() {
    let mut record = sample_record();
    record.payload_digest = HEX1.replace('1', "2");
    assert!(!record.validate());
    let mut record = sample_record();
    record.schema_version = "lekalo/cache/v9.9.9".to_owned();
    assert!(!record.validate());
    let mut record = sample_record();
    record.record_kind = RecordKind::ParsedFragment;
    assert!(!record.validate());
}

#[test]
fn dependencies_are_normalized_sorted_and_deduplicated() {
    let record = sample_record()
        .with_input(
            "sha256:2222222222222222222222222222222222222222222222222222222222222222"
                .to_owned(),
        )
        .with_input(
            "sha256:aaaa222222222222222222222222222222222222222222222222222222222222"
                .to_owned(),
        )
        .with_input(HEX1.to_owned())
        .sealed();
    assert!(record.validate());
    let digests: Vec<&str> = record
        .dependencies
        .iter()
        .map(|edge| edge.key_digest.as_str())
        .collect();
    let mut sorted = digests.clone();
    sorted.sort_unstable();
    assert_eq!(digests, sorted);
}

#[test]
fn stale_pipeline_bindings_never_validate() {
    let mut record = sample_record();
    record.binding.pipeline_revision = version::PIPELINE_REVISION + 1;
    assert!(!record.validate());
    let mut record = sample_record();
    record.binding.cache_identity = "dev.lekalo.cache@0.0.1".to_owned();
    assert!(!record.validate());
}

#[test]
fn input_ordinals_count_earlier_inputs_and_payload_fields_normalize() {
    let record = sample_record().with_input(hex(7)).with_input(hex(8));
    assert_eq!(record.dependencies[0].ordinal, 0);
    assert_eq!(record.dependencies[1].ordinal, 1);
    assert_eq!(record.dependencies[1].role, DependencyRole::Input);
    let payload = PayloadValue::new(
        HEX1.to_owned(),
        vec![
            PayloadField { name: "zeta".to_owned(), value: 1 },
            PayloadField { name: "alpha".to_owned(), value: 2 },
            PayloadField { name: "zeta".to_owned(), value: 3 },
        ],
    );
    let names: Vec<&str> = payload.fields.iter().map(|f| f.name.as_str()).collect();
    assert_eq!(names, ["alpha", "zeta"]);
    assert!(payload.is_well_formed());
    let canonical = format!(
        "{{\"digest\":\"{HEX1}\",\"fields\":[{{\"name\":\"alpha\",\"value\":2}},{{\"name\":\"zeta\",\"value\":{}}}]}}",
        payload.fields[1].value
    );
    assert_eq!(payload.digest(), sha256_digest(canonical.as_bytes()));
    let producer = Binding::producer(&[("dev.lekalo.ir", "dev.lekalo.ir@0.2.16")]);
    assert!(producer.is_current());
    let foreign = Binding::producer(&[("org.other.ir", "org.other.ir@1.0.0")]);
    assert!(!foreign.is_current());
}


use lekalo_core::cache::evict::{eviction_victims, EntryRow};

fn entry(kind: RecordKind, digest: &str, bytes: u64) -> EntryRow {
    EntryRow { kind, digest: digest.to_owned(), bytes }
}

fn store_rows() -> Vec<EntryRow> {
    vec![
        entry(RecordKind::Source, "a", 100),
        entry(RecordKind::ContextKey, "b", 10),
        entry(RecordKind::IrFragment, "c", 50),
        entry(RecordKind::ContextKey, "d", 30),
    ]
}

#[test]
fn eviction_takes_the_shortest_ranked_prefix_that_fits_both_limits() {
    let digests = |rows: Vec<EntryRow>| rows.into_iter().map(|r| r.digest).collect::<Vec<_>>();
    assert!(eviction_victims(store_rows(), 10, 1000).is_empty());
    assert_eq!(digests(eviction_victims(store_rows(), 2, 1000)), ["d", "b"]);
    assert_eq!(digests(eviction_victims(store_rows(), 10, 100)), ["d", "b", "c"]);
    assert_eq!(digests(eviction_victims(store_rows(), 0, 0)), ["d", "b", "c", "a"]);
}
