//! The closed record envelope and its validation. Every persisted
//! record is self-describing; a record that fails validation (unknown
//! versions, malformed digests, stale bindings, unordered or unbounded
//! dependencies, a payload digest that does not match) is a miss, never
//! a trusted hit.

use vstd::prelude::*;
use crate::digest::{digest_text, is_digest, is_digest_text, sha256_digest};
use crate::json::{JsonNumber, JsonTree, JsonValue, NumberTree, field_trees, push_entry, render_json,
    rendered_json, text_value, tree, trees};
use crate::sorting::{Ordered, covers, sort_dedup, strictly_sorted};
use crate::text::{CharClass, all_in, byte_len, chars_all_in, chars_of, contains_char, has_prefix, str_contains_char,
    str_eq, str_lt, str_starts_with, text_le, text_lt, lemma_text_le_order, lemma_text_lt_irreflexive,
    lemma_text_lt_total, lemma_text_lt_transitive};
use super::key::{Key, RecordKind, is_sorted_unique, key_digest_text, key_kind, key_well_formed, sorted_unique,
    string_texts};
use super::version::{IDENTITY, PIPELINE_REVISION, SCHEMA_VERSION};

verus! {

/// The closed dependency-edge role vocabulary.
#[derive(Clone, Copy, Debug, PartialEq, Eq, Structural)]
pub enum DependencyRole {
    /// `input`
    Input,
    /// `upstream`
    Upstream,
    /// `producer`
    Producer,
    /// `profile`
    Profile,
    /// `lock`
    Lock,
    /// `adapter`
    Adapter,
}

impl DependencyRole {
    /// The wire spelling of each member.
    pub open spec fn spec_text(self) -> Seq<char> {
        match self {
            DependencyRole::Input => "input"@,
            DependencyRole::Upstream => "upstream"@,
            DependencyRole::Producer => "producer"@,
            DependencyRole::Profile => "profile"@,
            DependencyRole::Lock => "lock"@,
            DependencyRole::Adapter => "adapter"@,
        }
    }

    /// The kebab-case wire spelling.
    pub fn as_str(self) -> (r: &'static str)
        ensures
            r@ == self.spec_text(),
    {
        match self {
            DependencyRole::Input => "input",
            DependencyRole::Upstream => "upstream",
            DependencyRole::Producer => "producer",
            DependencyRole::Profile => "profile",
            DependencyRole::Lock => "lock",
            DependencyRole::Adapter => "adapter",
        }
    }

    /// The member spelled `t`, if any.
    pub open spec fn spec_parse(t: Seq<char>) -> Option<DependencyRole> {
        if t == "input"@ {
            Some(DependencyRole::Input)
        } else if t == "upstream"@ {
            Some(DependencyRole::Upstream)
        } else if t == "producer"@ {
            Some(DependencyRole::Producer)
        } else if t == "profile"@ {
            Some(DependencyRole::Profile)
        } else if t == "lock"@ {
            Some(DependencyRole::Lock)
        } else if t == "adapter"@ {
            Some(DependencyRole::Adapter)
        } else {
            None
        }
    }

    /// Parse the exact wire spelling.
    pub fn parse(text: &str) -> (r: Option<DependencyRole>)
        ensures
            r == DependencyRole::spec_parse(text@),
    {
        if str_eq(text, "input") {
            Some(DependencyRole::Input)
        } else if str_eq(text, "upstream") {
            Some(DependencyRole::Upstream)
        } else if str_eq(text, "producer") {
            Some(DependencyRole::Producer)
        } else if str_eq(text, "profile") {
            Some(DependencyRole::Profile)
        } else if str_eq(text, "lock") {
            Some(DependencyRole::Lock)
        } else if str_eq(text, "adapter") {
            Some(DependencyRole::Adapter)
        } else {
            None
        }
    }
}

/// Every `DependencyRole` spelling parses back to its member, and nothing
/// else parses to that member.
pub proof fn lemma_dependency_role_round_trip(x: DependencyRole, t: Seq<char>)
    ensures
        DependencyRole::spec_parse(x.spec_text()) == Some(x),
        DependencyRole::spec_parse(t) == Some(x) ==> t == x.spec_text(),
{
    reveal_strlit("input");
    reveal_strlit("upstream");
    reveal_strlit("producer");
    reveal_strlit("profile");
    reveal_strlit("lock");
    reveal_strlit("adapter");
    assert("input"@.len() == 5);
    assert("upstream"@.len() == 8);
    assert("producer"@.len() == 8);
    assert("profile"@.len() == 7);
    assert("lock"@.len() == 4);
    assert("adapter"@.len() == 7);
    assert("upstream"@[0] == 'u');
    assert("producer"@[0] == 'p');
    assert("profile"@[0] == 'p');
    assert("adapter"@[0] == 'a');
}

/// One typed dependency edge: the downstream entry depends on the entry
/// whose key digest is `key_digest`.
#[derive(Debug, PartialEq, Eq)]
pub struct DependencyEdge {
    pub key_digest: String,
    pub role: DependencyRole,
    pub ordinal: u64,
}

/// Edges order by key digest bytes, then role spelling, then ordinal.
pub open spec fn edge_le(a: DependencyEdge, b: DependencyEdge) -> bool {
    let (da, db) = (a.key_digest@, b.key_digest@);
    let (ra, rb) = (a.role.spec_text(), b.role.spec_text());
    ||| text_lt(da, db)
    ||| da == db && text_lt(ra, rb)
    ||| da == db && ra == rb && a.ordinal <= b.ordinal
}

impl Ordered for DependencyEdge {
    open spec fn spec_le(&self, other: &Self) -> bool {
        edge_le(*self, *other)
    }

    proof fn lemma_total(a: &Self, b: &Self) {
        lemma_text_lt_total(a.key_digest@, b.key_digest@);
        lemma_text_lt_total(a.role.spec_text(), b.role.spec_text());
    }

    proof fn lemma_transitive(a: &Self, b: &Self, c: &Self) {
        let (da, db, dc) = (a.key_digest@, b.key_digest@, c.key_digest@);
        let (ra, rb, rc) = (a.role.spec_text(), b.role.spec_text(), c.role.spec_text());
        if text_lt(da, db) && text_lt(db, dc) {
            lemma_text_lt_transitive(da, db, dc);
        }
        if text_lt(ra, rb) && text_lt(rb, rc) {
            lemma_text_lt_transitive(ra, rb, rc);
        }
    }

    fn le(&self, other: &Self) -> (r: bool) {
        if str_lt(self.key_digest.as_str(), other.key_digest.as_str()) {
            return true;
        }
        if !str_eq(self.key_digest.as_str(), other.key_digest.as_str()) {
            return false;
        }
        let ra = self.role.as_str();
        let rb = other.role.as_str();
        if str_lt(ra, rb) {
            return true;
        }
        str_eq(ra, rb) && self.ordinal <= other.ordinal
    }
}

/// One consumed producer-contract reference.
#[derive(Clone, Debug, PartialEq, Eq)]
pub struct ContractRef {
    pub family: String,
    pub identity: String,
}

/// The exact binding vector every record carries.
#[derive(Debug, PartialEq, Eq)]
pub struct Binding {
    pub cache_identity: String,
    pub contracts: Vec<ContractRef>,
    pub pipeline_revision: u64,
}

/// A current contract reference: a `dev.lekalo.` family and a bounded
/// `family@version` identity.
pub open spec fn contract_current(c: ContractRef) -> bool {
    &&& has_prefix(c.family@, "dev.lekalo."@)
    &&& contains_char(c.identity@, '@')
    &&& byte_len(c.identity@) <= 160
}

/// The binding matches the running implementation exactly.
pub open spec fn binding_current(b: Binding) -> bool {
    &&& b.cache_identity@ == IDENTITY@
    &&& b.pipeline_revision == PIPELINE_REVISION
    &&& forall|i: int| 0 <= i < b.contracts@.len() ==> contract_current(#[trigger] b.contracts@[i])
}

impl Binding {
    /// The binding of the mirrored decode pipeline.
    pub fn pipeline() -> (r: Binding)
        ensures
            r.cache_identity@ == IDENTITY@,
            r.contracts@.len() == 0,
            r.pipeline_revision == PIPELINE_REVISION,
    {
        Binding { cache_identity: IDENTITY.to_owned(), contracts: Vec::new(), pipeline_revision: PIPELINE_REVISION }
    }

    /// The binding of one producer fragment over the given
    /// `(family, identity)` contracts, in order.
    pub fn producer(contracts: &[(&str, &str)]) -> (r: Binding)
        ensures
            r.cache_identity@ == IDENTITY@,
            r.pipeline_revision == PIPELINE_REVISION,
            r.contracts@.len() == contracts@.len(),
            forall|i: int| 0 <= i < contracts@.len() ==> (#[trigger] r.contracts@[i]).family@ == contracts@[i].0@
                && r.contracts@[i].identity@ == contracts@[i].1@,
    {
        let mut out: Vec<ContractRef> = Vec::new();
        let mut i: usize = 0;
        while i < contracts.len()
            invariant
                i <= contracts@.len(),
                out@.len() == i,
                forall|j: int| 0 <= j < i ==> (#[trigger] out@[j]).family@ == contracts@[j].0@
                    && out@[j].identity@ == contracts@[j].1@,
            decreases contracts@.len() - i,
        {
            let (family, identity) = contracts[i];
            out.push(ContractRef { family: family.to_owned(), identity: identity.to_owned() });
            i = i + 1;
        }
        Binding { cache_identity: IDENTITY.to_owned(), contracts: out, pipeline_revision: PIPELINE_REVISION }
    }

    /// Whether this binding exactly matches the running implementation.
    pub fn is_current(&self) -> (r: bool)
        ensures
            r == binding_current(*self),
    {
        if !str_eq(self.cache_identity.as_str(), IDENTITY) || self.pipeline_revision != PIPELINE_REVISION {
            return false;
        }
        let mut i: usize = 0;
        while i < self.contracts.len()
            invariant
                i <= self.contracts@.len(),
                forall|j: int| 0 <= j < i ==> contract_current(#[trigger] self.contracts@[j]),
            decreases self.contracts@.len() - i,
        {
            let c = &self.contracts[i];
            if !str_starts_with(c.family.as_str(), "dev.lekalo.") || !str_contains_char(c.identity.as_str(), '@')
                || c.identity.as_str().as_bytes().len() > 160 {
                return false;
            }
            i = i + 1;
        }
        true
    }
}

/// One bounded integer fact of the producer snapshot.
#[derive(Debug, PartialEq, Eq)]
pub struct PayloadField {
    pub name: String,
    pub value: u64,
}

impl Ordered for PayloadField {
    open spec fn spec_le(&self, other: &Self) -> bool {
        text_le(self.name@, other.name@)
    }

    proof fn lemma_total(a: &Self, b: &Self) {
        lemma_text_le_order(a.name@, b.name@, a.name@);
    }

    proof fn lemma_transitive(a: &Self, b: &Self, c: &Self) {
        lemma_text_le_order(a.name@, b.name@, c.name@);
    }

    fn le(&self, other: &Self) -> (r: bool) {
        !str_lt(other.name.as_str(), self.name.as_str())
    }
}

/// The bounded typed payload value: a digest plus bounded counts.
#[derive(Debug, PartialEq, Eq)]
pub struct PayloadValue {
    pub digest: String,
    pub fields: Vec<PayloadField>,
}

/// The content of one payload field `{name, value}`.
pub open spec fn payload_field_tree(f: PayloadField) -> JsonTree {
    JsonTree::Object(seq![("name"@, JsonTree::Text(f.name@)), ("value"@, JsonTree::Number(NumberTree::Unsigned(f.value)))])
}

/// The canonical content of a payload value `{digest, fields}`.
pub open spec fn payload_tree(v: PayloadValue) -> JsonTree {
    JsonTree::Object(seq![("digest"@, JsonTree::Text(v.digest@)),
        ("fields"@, JsonTree::Array(v.fields@.map_values(|f: PayloadField| payload_field_tree(f))))])
}

/// The payload digest: SHA-256 over the UTF-8 canonical payload bytes.
pub open spec fn payload_digest_text(v: PayloadValue) -> Seq<char> {
    digest_text(vstd::utf8::encode_utf8(rendered_json(payload_tree(v))))
}

/// A payload field name: 1 to 64 bytes of `[a-z0-9-]`.
pub open spec fn field_name_ok(name: Seq<char>) -> bool {
    1 <= byte_len(name) <= 64 && all_in(name, 0, CharClass::LowerDigitHyphen)
}

/// A well-formed payload value.
pub open spec fn payload_well_formed(v: PayloadValue) -> bool {
    &&& is_digest_text(v.digest@)
    &&& v.fields@.len() <= 64
    &&& forall|i: int| 0 <= i < v.fields@.len() ==> field_name_ok(#[trigger] v.fields@[i].name@)
}

impl PayloadValue {
    /// A payload whose fields are brought into byte order of their names
    /// with repeated names removed.
    pub fn new(digest: String, fields: Vec<PayloadField>) -> (r: PayloadValue)
        ensures
            r.digest == digest,
            strictly_sorted(r.fields@),
            forall|i: int| 0 <= i < r.fields@.len() ==> fields@.contains(#[trigger] r.fields@[i]),
            covers(r.fields@, fields@),
    {
        let unique = sort_dedup(fields);
        PayloadValue { digest, fields: unique }
    }

    /// The canonical content of the payload value.
    pub fn wire(&self) -> (r: JsonValue)
        ensures
            tree(r) == payload_tree(*self),
    {
        let mut items: Vec<JsonValue> = Vec::new();
        let mut i: usize = 0;
        while i < self.fields.len()
            invariant
                i <= self.fields@.len(),
                items@.len() == i,
                forall|j: int| 0 <= j < i ==> tree(#[trigger] items@[j]) == payload_field_tree(self.fields@[j]),
            decreases self.fields@.len() - i,
        {
            let ghost want = seq![("name"@, JsonTree::Text(self.fields@[i as int].name@)),
                ("value"@, JsonTree::Number(NumberTree::Unsigned(self.fields@[i as int].value)))];
            let mut f: Vec<(String, JsonValue)> = Vec::new();
            assert(field_trees(f@) =~= want.take(0));
            push_entry(&mut f, "name", text_value(self.fields[i].name.as_str()), Ghost(want));
            push_entry(&mut f, "value", JsonValue::Number(JsonNumber::Unsigned(self.fields[i].value)), Ghost(want));
            proof { crate::json::lemma_object_tree(f, want); }
            items.push(JsonValue::Object(f));
            i = i + 1;
        }
        let ghost want = seq![("digest"@, JsonTree::Text(self.digest@)),
            ("fields"@, JsonTree::Array(self.fields@.map_values(|f: PayloadField| payload_field_tree(f))))];
        let ghost item_view = items@;
        proof {
            assert(trees(item_view) =~= self.fields@.map_values(|f: PayloadField| payload_field_tree(f)));
        }
        let mut f: Vec<(String, JsonValue)> = Vec::new();
        assert(field_trees(f@) =~= want.take(0));
        push_entry(&mut f, "digest", text_value(self.digest.as_str()), Ghost(want));
        push_entry(&mut f, "fields", JsonValue::Array(items), Ghost(want));
        proof { crate::json::lemma_object_tree(f, want); }
        JsonValue::Object(f)
    }

    /// The digest over the canonical payload-value bytes.
    pub fn digest(&self) -> (r: String)
        ensures
            r@ == payload_digest_text(*self),
    {
        let w = self.wire();
        let text = render_json(&w);
        sha256_digest(text.as_str().as_bytes())
    }

    /// Whether the payload is well formed: a digest and at most 64
    /// fields with bounded kebab names.
    pub fn is_well_formed(&self) -> (r: bool)
        ensures
            r == payload_well_formed(*self),
    {
        if !is_digest(self.digest.as_str()) || self.fields.len() > 64 {
            return false;
        }
        let mut i: usize = 0;
        while i < self.fields.len()
            invariant
                i <= self.fields@.len(),
                forall|j: int| 0 <= j < i ==> field_name_ok(#[trigger] self.fields@[j].name@),
            decreases self.fields@.len() - i,
        {
            let name = self.fields[i].name.as_str();
            let n = name.as_bytes().len();
            if n < 1 || n > 64 || !chars_all_in(&chars_of(name), 0, CharClass::LowerDigitHyphen) {
                return false;
            }
            i = i + 1;
        }
        true
    }
}

/// The bounded payload wrapper.
#[derive(Debug, PartialEq, Eq)]
pub struct Payload {
    pub encoding: String,
    pub value: PayloadValue,
}

/// The closed record envelope: the only shape the store persists.
#[derive(Debug, PartialEq, Eq)]
pub struct Record {
    pub schema_version: String,
    pub identity: String,
    pub record_kind: RecordKind,
    pub key: Key,
    pub key_digest: String,
    pub binding: Binding,
    pub dependencies: Vec<DependencyEdge>,
    pub payload: Payload,
    pub payload_digest: String,
}

/// Maximum dependency edges accepted per record.
pub const MAX_DEPENDENCIES: usize = 1024;

/// The number of `input` edges.
pub open spec fn input_count(s: Seq<DependencyEdge>) -> nat
    decreases s.len(),
{
    if s.len() == 0 {
        0
    } else {
        input_count(s.drop_last()) + if s.last().role == DependencyRole::Input { 1nat } else { 0nat }
    }
}

/// The key digests of the edges.
pub open spec fn edge_digests(s: Seq<DependencyEdge>) -> Seq<Seq<char>> {
    s.map_values(|e: DependencyEdge| e.key_digest@)
}

/// Full validity before typed use.
pub open spec fn record_valid(r: Record) -> bool {
    &&& r.schema_version@ == SCHEMA_VERSION@
    &&& r.identity@ == IDENTITY@
    &&& r.record_kind == key_kind(r.key)
    &&& key_well_formed(r.key)
    &&& binding_current(r.binding)
    &&& r.key_digest@ == key_digest_text(r.key)
    &&& payload_well_formed(r.payload.value)
    &&& r.dependencies@.len() <= MAX_DEPENDENCIES
    &&& sorted_unique(edge_digests(r.dependencies@))
    &&& forall|i: int| 0 <= i < r.dependencies@.len() ==> is_digest_text(#[trigger] r.dependencies@[i].key_digest@)
    &&& r.payload_digest@ == payload_digest_text(r.payload.value)
}

impl Record {
    /// One unsealed record of typed parts: no dependencies yet and empty
    /// digests.
    pub fn new(kind: RecordKind, key: Key, binding: Binding, payload_value: PayloadValue) -> (r: Record)
        ensures
            r.schema_version@ == SCHEMA_VERSION@,
            r.identity@ == IDENTITY@,
            r.record_kind == kind,
            r.key == key,
            r.key_digest@.len() == 0,
            r.binding == binding,
            r.dependencies@.len() == 0,
            r.payload.encoding@ == "lekalo/canonical-json"@,
            r.payload.value == payload_value,
            r.payload_digest@.len() == 0,
    {
        let r = Record {
            schema_version: SCHEMA_VERSION.to_owned(),
            identity: IDENTITY.to_owned(),
            record_kind: kind,
            key,
            key_digest: String::new(),
            binding,
            dependencies: Vec::new(),
            payload: Payload { encoding: "lekalo/canonical-json".to_owned(), value: payload_value },
            payload_digest: String::new(),
        };
        r
    }

    /// Attach one `input` dependency edge whose ordinal is the number of
    /// input edges already attached.
    pub fn with_input(self, key_digest: String) -> (r: Record)
        ensures
            r.dependencies@.len() == self.dependencies@.len() + 1,
            r.dependencies@.drop_last() == self.dependencies@,
            r.dependencies@.last().key_digest == key_digest,
            r.dependencies@.last().role == DependencyRole::Input,
            r.dependencies@.last().ordinal == input_count(self.dependencies@),
            r.schema_version == self.schema_version,
            r.identity == self.identity,
            r.record_kind == self.record_kind,
            r.key == self.key,
            r.key_digest == self.key_digest,
            r.binding == self.binding,
            r.payload == self.payload,
            r.payload_digest == self.payload_digest,
    {
        let mut me = self;
        let mut count: u64 = 0;
        let mut i: usize = 0;
        while i < me.dependencies.len()
            invariant
                i <= me.dependencies@.len(),
                count == input_count(me.dependencies@.take(i as int)),
                count <= i,
            decreases me.dependencies@.len() - i,
        {
            assert(me.dependencies@.take(i + 1).drop_last() =~= me.dependencies@.take(i as int));
            if me.dependencies[i].role == DependencyRole::Input {
                count = count + 1;
            }
            i = i + 1;
        }
        assert(me.dependencies@.take(me.dependencies@.len() as int) =~= me.dependencies@);
        let ghost before = me.dependencies@;
        me.dependencies.push(DependencyEdge { key_digest, role: DependencyRole::Input, ordinal: count });
        assert(me.dependencies@.drop_last() =~= before);
        me
    }

    /// Seal the record: bring the dependencies into canonical order
    /// without repeats and pin the key and payload digests.
    pub fn sealed(self) -> (r: Record)
        ensures
            strictly_sorted(r.dependencies@),
            forall|i: int| 0 <= i < r.dependencies@.len() ==> self.dependencies@.contains(#[trigger] r.dependencies@[i]),
            covers(r.dependencies@, self.dependencies@),
            r.key_digest@ == key_digest_text(self.key),
            r.payload_digest@ == payload_digest_text(self.payload.value),
            r.schema_version == self.schema_version,
            r.identity == self.identity,
            r.record_kind == self.record_kind,
            r.key == self.key,
            r.binding == self.binding,
            r.payload == self.payload,
    {
        let Record { schema_version, identity, record_kind, key, key_digest: _, binding, dependencies, payload,
            payload_digest: _ } = self;
        let unique = sort_dedup(dependencies);
        let key_digest = key.digest();
        let payload_digest = payload.value.digest();
        Record { schema_version, identity, record_kind, key, key_digest, binding, dependencies: unique, payload,
            payload_digest }
    }

    /// Whether the pinned key digest matches the key bytes.
    pub fn key_digest_is_consistent(&self) -> (r: bool)
        ensures
            r == (self.key_digest@ == key_digest_text(self.key)),
    {
        let d = self.key.digest();
        str_eq(self.key_digest.as_str(), d.as_str())
    }

    /// Full validation before typed use: envelope identity, key and
    /// payload well-formedness, binding currency, dependency bounds and
    /// order, and both pinned digests.
    pub fn validate(&self) -> (r: bool)
        ensures
            r == record_valid(*self),
    {
        if !str_eq(self.schema_version.as_str(), SCHEMA_VERSION) || !str_eq(self.identity.as_str(), IDENTITY) {
            return false;
        }
        if self.record_kind != self.key.kind() {
            return false;
        }
        if !self.key.is_well_formed() || !self.binding.is_current() {
            return false;
        }
        if !self.key_digest_is_consistent() {
            return false;
        }
        if !self.payload.value.is_well_formed() {
            return false;
        }
        if self.dependencies.len() > MAX_DEPENDENCIES {
            return false;
        }
        let mut digests: Vec<String> = Vec::new();
        let mut i: usize = 0;
        while i < self.dependencies.len()
            invariant
                i <= self.dependencies@.len(),
                digests@.len() == i,
                forall|j: int| 0 <= j < i ==> (#[trigger] digests@[j])@ == self.dependencies@[j].key_digest@,
            decreases self.dependencies@.len() - i,
        {
            let d = self.dependencies[i].key_digest.clone();
            digests.push(d);
            i = i + 1;
        }
        assert(string_texts(digests@) =~= edge_digests(self.dependencies@));
        if !is_sorted_unique(digests.as_slice()) {
            return false;
        }
        let mut j: usize = 0;
        while j < self.dependencies.len()
            invariant
                j <= self.dependencies@.len(),
                forall|k: int| 0 <= k < j ==> is_digest_text(#[trigger] self.dependencies@[k].key_digest@),
            decreases self.dependencies@.len() - j,
        {
            if !is_digest(self.dependencies[j].key_digest.as_str()) {
                return false;
            }
            j = j + 1;
        }
        let d = self.payload.value.digest();
        str_eq(self.payload_digest.as_str(), d.as_str())
    }
}

} // verus!
