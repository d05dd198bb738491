//! Adapter declaration normalization: the single entry from raw
//! declaration bytes to the typed [`DeclarationDocument`]. It fails
//! closed before any merge: the byte bound, UTF-8, JSON syntax, the
//! closed member sets, identifier, digest and path grammars, and bounds
//! each return one registered refusal with no partial document.

use vstd::prelude::*;
use vstd::string::StrSliceExecFns;
use crate::json::{JsonNumber, JsonValue, array_of, get, key_listed, key_texts, member, parse_json, parsed_json,
    text_of};
use crate::diagnostics::set::DiagnosticSet;
use crate::diagnostics::item::DiagnosticView;
use crate::diagnostics::types::DataValue;
use crate::classification::diagnostic::token_member;
use super::diagnostic::{contracted_item, declaration_invalid_set, declaration_limit_set, token_of};
use crate::text::{CharClass, all_in, byte_len, chars_all_in, chars_of, count_char, count_chars, find_char,
    first_index, has_prefix, is_alnum, is_digit, is_lower, is_lower_char, str_eq, str_starts_with};
use crate::ids::{SemanticId, is_semantic_id};
use crate::digest::is_digest_text;
use crate::diagnostics::provider::{is_unsafe_path, unsafe_path};
use crate::sorting::{Ordered, covered, equivalent, sort_dedup, strictly_sorted};
use crate::text::{str_lt, text_le, text_lt, lemma_text_le_order, lemma_text_lt_irreflexive, lemma_text_lt_total,
    lemma_text_lt_transitive};
use super::types::{AdapterIdentity, DeclarationDocument, DeclaredEffect, DeclaredSymbol, SignatureEvidence,
    SignatureField, SourceLocation, SupportArtifact, SupportKind, SupportLifecycle, SymbolKind};
use super::version::{DECLARATION_SCHEMA_VERSION, MAX_ATTACHMENTS, MAX_REGISTRY_BYTES, MAX_SUPPORT_ARTIFACTS,
    MAX_SYMBOLS, adapter_id, is_adapter_id, is_support_path, support_path};

verus! {

// ---------------------------------------------------------------------
// Refusals

/// One refusal of a declaration: an invalid member with an optional
/// echoed target, or an exceeded bound with the count found.
#[derive(Clone, Debug, PartialEq, Eq)]
pub enum Refusal {
    Invalid(String, Option<String>),
    Limit(String, usize),
}

/// The content of a refusal.
pub enum RefusalView {
    Invalid(Seq<char>, Option<Seq<char>>),
    Limit(Seq<char>, nat),
}

impl View for Refusal {
    type V = RefusalView;

    closed spec fn view(&self) -> RefusalView {
        match self {
            Refusal::Invalid(d, t) => RefusalView::Invalid(d@, match t {
                Some(x) => Some(x@),
                None => None,
            }),
            Refusal::Limit(l, n) => RefusalView::Limit(l@, *n as nat),
        }
    }
}

/// An invalid member without a target.
pub open spec fn invalid(detail: Seq<char>) -> RefusalView {
    RefusalView::Invalid(detail, None)
}

/// An invalid member naming a target.
pub open spec fn invalid_at(detail: Seq<char>, target: Seq<char>) -> RefusalView {
    RefusalView::Invalid(detail, Some(target))
}

/// A missing or mistyped required member.
pub open spec fn missing(key: Seq<char>) -> RefusalView {
    invalid_at("missing-key"@, key)
}

fn refuse(detail: &str) -> (r: Refusal)
    ensures
        r@ == invalid(detail@),
{
    Refusal::Invalid(detail.to_owned(), None)
}

fn refuse_at(detail: &str, target: &str) -> (r: Refusal)
    ensures
        r@ == invalid_at(detail@, target@),
{
    Refusal::Invalid(detail.to_owned(), Some(target.to_owned()))
}

fn refuse_limit(limit: &str, found: usize) -> (r: Refusal)
    ensures
        r@ == RefusalView::Limit(limit@, found as nat),
{
    Refusal::Limit(limit.to_owned(), found)
}

// ---------------------------------------------------------------------
// Grammars

/// The canonical `X.Y.Z` contract version: three non-empty digit runs.
pub open spec fn contract_version(s: Seq<char>) -> bool {
    &&& s.len() >= 1
    &&& count_char(s, '.') == 2
    &&& forall|i: int| 0 <= i < s.len() ==> is_digit(#[trigger] s[i]) || s[i] == '.'
    &&& s[0] != '.'
    &&& s[s.len() - 1] != '.'
    &&& forall|i: int| 0 <= i < s.len() - 1 && #[trigger] s[i] == '.' ==> s[i + 1] != '.'
}

/// Whether a text is a canonical `X.Y.Z` contract version.
pub fn is_contract_version(text: &str) -> (r: bool)
    ensures
        r == contract_version(text@),
{
    let s = chars_of(text);
    let n = s.len();
    if n == 0 || count_chars(&s, '.') != 2 || s[0] == '.' || s[n - 1] == '.' {
        return false;
    }
    let mut i: usize = 0;
    while i < n
        invariant
            s@ == text@,
            n == s@.len(),
            n >= 1,
            i <= n,
            forall|j: int| 0 <= j < i ==> is_digit(#[trigger] s@[j]) || s@[j] == '.',
            forall|j: int| 0 <= j < i && j < n - 1 && #[trigger] s@[j] == '.' ==> s@[j + 1] != '.',
        decreases n - i,
    {
        let c = s[i];
        if !(('0' <= c && c <= '9') || c == '.') {
            return false;
        }
        if c == '.' && i + 1 < n && s[i + 1] == '.' {
            return false;
        }
        i = i + 1;
    }
    true
}

/// The Model field-name grammar: 1 to 64 bytes, a lowercase letter,
/// then lowercase letters, digits and underscores.
pub open spec fn field_name(s: Seq<char>) -> bool {
    &&& 1 <= byte_len(s) <= 64
    &&& s.len() >= 1
    &&& is_lower(s[0])
    &&& all_in(s, 1, CharClass::LowerDigitUnderscore)
}

/// Whether a text is a Model field name.
pub fn is_field_name(text: &str) -> (r: bool)
    ensures
        r == field_name(text@),
{
    let n = text.as_bytes().len();
    if n < 1 || n > 64 {
        return false;
    }
    let s = chars_of(text);
    s.len() >= 1 && is_lower_char(s[0]) && chars_all_in(&s, 1, CharClass::LowerDigitUnderscore)
}

/// A character of the compact type-expression charset.
pub open spec fn type_char(c: char) -> bool {
    is_alnum(c) || c == '_' || c == '.' || c == '?' || c == '(' || c == ')'
}

/// The compact type-expression grammar: 1 to 192 bytes of `[A-Za-z0-9_.?()]`.
pub open spec fn type_expression(s: Seq<char>) -> bool {
    &&& 1 <= byte_len(s) <= 192
    &&& forall|i: int| 0 <= i < s.len() ==> type_char(#[trigger] s[i])
}

/// Whether a text is a compact type expression.
pub fn is_type_expression(text: &str) -> (r: bool)
    ensures
        r == type_expression(text@),
{
    let n = text.as_bytes().len();
    if n < 1 || n > 192 {
        return false;
    }
    let s = chars_of(text);
    let mut i: usize = 0;
    while i < s.len()
        invariant
            s@ == text@,
            i <= s@.len(),
            forall|j: int| 0 <= j < i ==> type_char(#[trigger] s@[j]),
        decreases s@.len() - i,
    {
        let c = s[i];
        let ok = ('a' <= c && c <= 'z') || ('A' <= c && c <= 'Z') || ('0' <= c && c <= '9') || c == '_' || c == '.'
            || c == '?' || c == '(' || c == ')';
        if !ok {
            return false;
        }
        i = i + 1;
    }
    true
}

/// An `entity.field` subject: a semantic id before the first dot, a
/// field name after it.
pub open spec fn entity_field_subject(s: Seq<char>) -> bool {
    let k = first_index(s, '.');
    &&& k < s.len()
    &&& is_semantic_id(s.take(k))
    &&& field_name(s.skip(k + 1))
}

/// Whether a text is an `entity.field` subject.
pub fn is_entity_field_subject(text: &str) -> (r: bool)
    ensures
        r == entity_field_subject(text@),
{
    let s = chars_of(text);
    let k = find_char(&s, '.');
    proof { crate::text::lemma_first_index(text@, '.'); }
    if k >= s.len() {
        return false;
    }
    let entity = text.substring_char(0, k);
    let field = text.substring_char(k + 1, s.len());
    assert(entity@ =~= text@.take(k as int));
    assert(field@ =~= text@.skip(k + 1));
    SemanticId::parse(entity).is_ok() && is_field_name(field)
}

/// A maintained source path: a safe logical path outside the Model
/// home `lekalo/`.
pub open spec fn source_path_ok(p: Seq<char>) -> bool {
    !unsafe_path(p) && !has_prefix(p, "lekalo/"@)
}

/// The closed effect-kind keys.
pub open spec fn effect_kinds() -> Seq<Seq<char>> {
    seq!["read"@, "create"@, "update"@, "delete"@, "write-field"@, "emit-event"@, "enqueue-job"@,
        "external-call"@, "cache-read"@, "cache-write"@, "cache-invalidate"@, "publish-output"@,
        "audit-log"@, "transaction-boundary"@]
}

fn effect_kind_list() -> (r: Vec<&'static str>)
    ensures
        key_texts(r@) == effect_kinds(),
{
    let r = vec!["read", "create", "update", "delete", "write-field", "emit-event", "enqueue-job",
        "external-call", "cache-read", "cache-write", "cache-invalidate", "publish-output", "audit-log",
        "transaction-boundary"];
    assert(key_texts(r@) =~= effect_kinds());
    r
}

// ---------------------------------------------------------------------
// Members

/// The first member name of an object that is not one of `keys`.
pub open spec fn first_unknown(fields: Seq<(String, JsonValue)>, keys: Seq<Seq<char>>) -> Option<Seq<char>>
    decreases fields.len(),
{
    if fields.len() == 0 {
        None
    } else if !keys.contains(fields[0].0@) {
        Some(fields[0].0@)
    } else {
        first_unknown(fields.drop_first(), keys)
    }
}

/// The refusal of a value that is not an object with only the listed
/// members, if any.
pub open spec fn shape_error(v: JsonValue, keys: Seq<Seq<char>>) -> Option<RefusalView> {
    match v {
        JsonValue::Object(fields) => match first_unknown(fields@, keys) {
            Some(k) => Some(invalid_at("unknown-key"@, k)),
            None => None,
        },
        _ => Some(invalid("not-an-object"@)),
    }
}

/// Check that a value is an object with only the listed members.
fn check_shape(v: &JsonValue, keys: &Vec<&str>) -> (r: Result<(), Refusal>)
    ensures
        match shape_error(*v, key_texts(keys@)) {
            Some(e) => r matches Err(x) && x@ == e,
            None => r is Ok,
        },
{
    match v {
        JsonValue::Object(fields) => {
            let ghost ks = key_texts(keys@);
            let mut i: usize = 0;
            assert(fields@.subrange(0, fields@.len() as int) =~= fields@);
            while i < fields.len()
                invariant
                    i <= fields@.len(),
                    *v == JsonValue::Object(*fields),
                    ks == key_texts(keys@),
                    first_unknown(fields@, ks) == first_unknown(fields@.subrange(i as int, fields@.len() as int), ks),
                decreases fields@.len() - i,
            {
                let ghost rest = fields@.subrange(i as int, fields@.len() as int);
                assert(rest.drop_first() =~= fields@.subrange(i + 1, fields@.len() as int));
                assert(rest[0] == fields@[i as int]);
                if !key_listed(keys, fields[i].0.as_str()) {
                    assert(!ks.contains(fields@[i as int].0@));
                    assert(first_unknown(rest, ks) == Some(fields@[i as int].0@));
                    let e = refuse_at("unknown-key", fields[i].0.as_str());
                    assert(shape_error(*v, ks) == Some(invalid_at("unknown-key"@, fields@[i as int].0@)));
                    return Err(e);
                }
                i = i + 1;
            }
            Ok(())
        },
        _ => Err(refuse("not-an-object")),
    }
}

/// A required string member.
pub open spec fn string_at(v: JsonValue, key: Seq<char>) -> Result<Seq<char>, RefusalView> {
    match text_of(member(v, key)) {
        Some(t) => Ok(t),
        None => Err(missing(key)),
    }
}

fn string_member(v: &JsonValue, key: &str) -> (r: Result<String, Refusal>)
    ensures
        match string_at(*v, key@) {
            Ok(t) => r matches Ok(s) && s@ == t,
            Err(e) => r matches Err(x) && x@ == e,
        },
{
    match get(v, key) {
        Some(JsonValue::Text(s)) => Ok(s.clone()),
        _ => Err(refuse_at("missing-key", key)),
    }
}

/// An optional string member: absent or `null` is none.
pub open spec fn opt_string_at(v: JsonValue, key: Seq<char>) -> Result<Option<Seq<char>>, RefusalView> {
    match member(v, key) {
        None => Ok(None),
        Some(JsonValue::Null) => Ok(None),
        Some(JsonValue::Text(s)) => Ok(Some(s@)),
        Some(_) => Err(missing(key)),
    }
}

fn optional_string_member(v: &JsonValue, key: &str) -> (r: Result<Option<String>, Refusal>)
    ensures
        match opt_string_at(*v, key@) {
            Ok(t) => r matches Ok(s) && match t {
                Some(x) => s matches Some(y) && y@ == x,
                None => s is None,
            },
            Err(e) => r matches Err(x) && x@ == e,
        },
{
    match get(v, key) {
        None => Ok(None),
        Some(JsonValue::Null) => Ok(None),
        Some(JsonValue::Text(s)) => Ok(Some(s.clone())),
        Some(_) => Err(refuse_at("missing-key", key)),
    }
}

/// An optional array member: absent or `null` is empty.
pub open spec fn opt_array_at(v: JsonValue, key: Seq<char>) -> Result<Seq<JsonValue>, RefusalView> {
    match member(v, key) {
        None => Ok(Seq::empty()),
        Some(JsonValue::Null) => Ok(Seq::empty()),
        Some(JsonValue::Array(items)) => Ok(items@),
        Some(_) => Err(invalid("not-an-array"@)),
    }
}

fn optional_array<'a>(v: &'a JsonValue, key: &str) -> (r: Result<&'a [JsonValue], Refusal>)
    ensures
        match opt_array_at(*v, key@) {
            Ok(items) => r matches Ok(s) && s@ == items,
            Err(e) => r matches Err(x) && x@ == e,
        },
{
    match get(v, key) {
        None => Ok(&[]),
        Some(JsonValue::Null) => Ok(&[]),
        Some(JsonValue::Array(items)) => Ok(items.as_slice()),
        Some(_) => Err(refuse("not-an-array")),
    }
}


// ---------------------------------------------------------------------
// Orders of the canonical lists

impl Ordered for String {
    open spec fn spec_le(&self, other: &Self) -> bool {
        text_le(self@, other@)
    }

    proof fn lemma_total(a: &Self, b: &Self) {
        lemma_text_le_order(a@, b@, a@);
    }

    proof fn lemma_transitive(a: &Self, b: &Self, c: &Self) {
        lemma_text_le_order(a@, b@, c@);
    }

    fn le(&self, other: &Self) -> (r: bool) {
        !str_lt(other.as_str(), self.as_str())
    }
}

/// Effects order by kind, then subject.
pub open spec fn effect_le(a: (Seq<char>, Seq<char>), b: (Seq<char>, Seq<char>)) -> bool {
    text_lt(a.0, b.0) || (a.0 == b.0 && text_le(a.1, b.1))
}

impl Ordered for DeclaredEffect {
    open spec fn spec_le(&self, other: &Self) -> bool {
        effect_le((self.kind@, self.subject@), (other.kind@, other.subject@))
    }

    proof fn lemma_total(a: &Self, b: &Self) {
        lemma_text_lt_total(a.kind@, b.kind@);
        lemma_text_le_order(a.subject@, b.subject@, a.subject@);
    }

    proof fn lemma_transitive(a: &Self, b: &Self, c: &Self) {
        if text_lt(a.kind@, b.kind@) && text_lt(b.kind@, c.kind@) {
            lemma_text_lt_transitive(a.kind@, b.kind@, c.kind@);
        }
        lemma_text_le_order(a.subject@, b.subject@, c.subject@);
    }

    fn le(&self, other: &Self) -> (r: bool) {
        if str_lt(self.kind.as_str(), other.kind.as_str()) {
            return true;
        }
        str_eq(self.kind.as_str(), other.kind.as_str()) && !str_lt(other.subject.as_str(), self.subject.as_str())
    }
}

/// Two texts sort together only when equal.
proof fn lemma_text_equivalent(a: Seq<char>, b: Seq<char>)
    requires
        text_le(a, b),
        text_le(b, a),
    ensures
        a == b,
{
    lemma_text_le_order(a, b, a);
}

/// A list in strictly increasing order whose texts are exactly `set`.
pub open spec fn canonical_texts(out: Seq<String>, set: Set<Seq<char>>) -> bool {
    &&& strictly_sorted(out)
    &&& forall|i: int| 0 <= i < out.len() ==> set.contains(#[trigger] out[i]@)
    &&& forall|x: Seq<char>| set.contains(x) ==> exists|i: int| 0 <= i < out.len() && #[trigger] out[i]@ == x
}

/// The `(kind, subject)` content of an effect.
pub open spec fn effect_pair(e: DeclaredEffect) -> (Seq<char>, Seq<char>) {
    (e.kind@, e.subject@)
}

/// A list in strictly increasing order whose `(kind, subject)` pairs are
/// exactly `set`.
pub open spec fn canonical_effects(out: Seq<DeclaredEffect>, set: Set<(Seq<char>, Seq<char>)>) -> bool {
    &&& strictly_sorted(out)
    &&& forall|i: int| 0 <= i < out.len() ==> set.contains(#[trigger] effect_pair(out[i]))
    &&& forall|x: (Seq<char>, Seq<char>)| set.contains(x) ==>
        exists|i: int| 0 <= i < out.len() && #[trigger] effect_pair(out[i]) == x
}

// ---------------------------------------------------------------------
// Symbols

/// The content of one signature input.
pub struct InputView {
    pub name: Seq<char>,
    pub ty: Seq<char>,
    pub required: bool,
}

/// The content of a signature claim; the reads as a set.
pub struct SignatureView {
    pub inputs: Seq<InputView>,
    pub output: Option<Seq<char>>,
    pub reads: Set<Seq<char>>,
}

/// The content of one declared symbol; the effects as a set.
pub struct SymbolView {
    pub id: Seq<char>,
    pub kind: SymbolKind,
    pub path: Seq<char>,
    pub line: Option<u64>,
    pub fingerprint: Option<Seq<char>>,
    pub signature: Option<SignatureView>,
    pub effects: Set<(Seq<char>, Seq<char>)>,
}

/// The closed symbol member set.
pub open spec fn symbol_keys() -> Seq<Seq<char>> {
    seq!["id"@, "kind"@, "source"@, "fingerprint"@, "signature"@, "effects"@]
}

/// The closed source member set.
pub open spec fn source_keys() -> Seq<Seq<char>> {
    seq!["path"@, "line"@]
}

/// The closed signature member set.
pub open spec fn signature_keys() -> Seq<Seq<char>> {
    seq!["inputs"@, "output"@, "reads"@]
}

/// The closed signature-input member set.
pub open spec fn input_keys() -> Seq<Seq<char>> {
    seq!["name"@, "type"@, "required"@]
}

/// The closed effect member set.
pub open spec fn effect_keys() -> Seq<Seq<char>> {
    seq!["kind"@, "subject"@]
}

/// One signature input of symbol `id`.
pub open spec fn input_of(v: JsonValue, id: Seq<char>) -> Result<InputView, RefusalView> {
    if shape_error(v, input_keys()) is Some {
        Err(shape_error(v, input_keys()).unwrap())
    } else if string_at(v, "name"@) is Err {
        Err(string_at(v, "name"@)->Err_0)
    } else if !field_name(string_at(v, "name"@)->Ok_0) {
        Err(invalid_at("input-name"@, id))
    } else if string_at(v, "type"@) is Err {
        Err(string_at(v, "type"@)->Err_0)
    } else if !type_expression(string_at(v, "type"@)->Ok_0) {
        Err(invalid_at("input-type"@, id))
    } else {
        match member(v, "required"@) {
            None => Ok(InputView { name: string_at(v, "name"@)->Ok_0, ty: string_at(v, "type"@)->Ok_0, required: false }),
            Some(JsonValue::Null) => Ok(InputView { name: string_at(v, "name"@)->Ok_0, ty: string_at(v, "type"@)->Ok_0,
                required: false }),
            Some(JsonValue::Bool(b)) => Ok(InputView { name: string_at(v, "name"@)->Ok_0,
                ty: string_at(v, "type"@)->Ok_0, required: b }),
            Some(_) => Err(invalid_at("input-required"@, id)),
        }
    }
}

/// The signature inputs of symbol `id`, the first refusal in order.
pub open spec fn inputs_of(items: Seq<JsonValue>, id: Seq<char>) -> Result<Seq<InputView>, RefusalView>
    decreases items.len(),
{
    if items.len() == 0 {
        Ok(Seq::empty())
    } else {
        match inputs_of(items.drop_last(), id) {
            Err(e) => Err(e),
            Ok(prev) => match input_of(items.last(), id) {
                Err(e) => Err(e),
                Ok(x) => Ok(prev.push(x)),
            },
        }
    }
}

/// Whether one item is a read reference.
pub open spec fn read_ok(v: JsonValue) -> bool {
    v matches JsonValue::Text(s) && is_semantic_id(s@)
}

/// The read references, or the refusal of the first bad one.
pub open spec fn reads_of(items: Seq<JsonValue>, id: Seq<char>) -> Result<Set<Seq<char>>, RefusalView> {
    if exists|i: int| 0 <= i < items.len() && !read_ok(#[trigger] items[i]) {
        Err(invalid_at("read-reference"@, id))
    } else {
        Ok(Set::new(|x: Seq<char>| exists|i: int| 0 <= i < items.len() && #[trigger] text_of(Some(items[i])) == Some(x)))
    }
}

/// The signature member of symbol `id`: absent or `null` is none.
pub open spec fn signature_of(v: JsonValue, id: Seq<char>) -> Result<Option<SignatureView>, RefusalView> {
    match member(v, "signature"@) {
        None => Ok(None),
        Some(JsonValue::Null) => Ok(None),
        Some(s) => if shape_error(s, signature_keys()) is Some {
            Err(shape_error(s, signature_keys()).unwrap())
        } else if opt_array_at(s, "inputs"@) is Err {
            Err(opt_array_at(s, "inputs"@)->Err_0)
        } else if opt_array_at(s, "inputs"@)->Ok_0.len() > MAX_ATTACHMENTS {
            Err(RefusalView::Limit("inputs"@, opt_array_at(s, "inputs"@)->Ok_0.len()))
        } else if inputs_of(opt_array_at(s, "inputs"@)->Ok_0, id) is Err {
            Err(inputs_of(opt_array_at(s, "inputs"@)->Ok_0, id)->Err_0)
        } else if opt_string_at(s, "output"@) is Err {
            Err(opt_string_at(s, "output"@)->Err_0)
        } else if opt_string_at(s, "output"@)->Ok_0 matches Some(o) && !type_expression(o) {
            Err(invalid_at("output-type"@, id))
        } else if opt_array_at(s, "reads"@) is Err {
            Err(opt_array_at(s, "reads"@)->Err_0)
        } else if opt_array_at(s, "reads"@)->Ok_0.len() > MAX_ATTACHMENTS {
            Err(RefusalView::Limit("reads"@, opt_array_at(s, "reads"@)->Ok_0.len()))
        } else if reads_of(opt_array_at(s, "reads"@)->Ok_0, id) is Err {
            Err(reads_of(opt_array_at(s, "reads"@)->Ok_0, id)->Err_0)
        } else {
            Ok(Some(SignatureView {
                inputs: inputs_of(opt_array_at(s, "inputs"@)->Ok_0, id)->Ok_0,
                output: opt_string_at(s, "output"@)->Ok_0,
                reads: reads_of(opt_array_at(s, "reads"@)->Ok_0, id)->Ok_0,
            }))
        },
    }
}

/// One declared effect `(kind, subject)`.
pub open spec fn effect_of(v: JsonValue) -> Result<(Seq<char>, Seq<char>), RefusalView> {
    if shape_error(v, effect_keys()) is Some {
        Err(shape_error(v, effect_keys()).unwrap())
    } else if string_at(v, "kind"@) is Err {
        Err(string_at(v, "kind"@)->Err_0)
    } else if !effect_kinds().contains(string_at(v, "kind"@)->Ok_0) {
        Err(invalid_at("effect-kind"@, string_at(v, "kind"@)->Ok_0))
    } else if string_at(v, "subject"@) is Err {
        Err(string_at(v, "subject"@)->Err_0)
    } else if !is_semantic_id(string_at(v, "subject"@)->Ok_0) && !entity_field_subject(string_at(v, "subject"@)->Ok_0) {
        Err(invalid_at("effect-subject"@, string_at(v, "subject"@)->Ok_0))
    } else {
        Ok((string_at(v, "kind"@)->Ok_0, string_at(v, "subject"@)->Ok_0))
    }
}

/// The declared effects in order, the first refusal in order.
pub open spec fn effect_list(items: Seq<JsonValue>) -> Result<Seq<(Seq<char>, Seq<char>)>, RefusalView>
    decreases items.len(),
{
    if items.len() == 0 {
        Ok(Seq::empty())
    } else {
        match effect_list(items.drop_last()) {
            Err(e) => Err(e),
            Ok(prev) => match effect_of(items.last()) {
                Err(e) => Err(e),
                Ok(x) => Ok(prev.push(x)),
            },
        }
    }
}

fn check_read(v: &JsonValue, id: &str) -> (r: Result<String, Refusal>)
    ensures
        read_ok(*v) ==> (r matches Ok(s) && text_of(Some(*v)) == Some(s@)),
        !read_ok(*v) ==> (r matches Err(e) && e@ == invalid_at("read-reference"@, id@)),
{
    match v {
        JsonValue::Text(s) => {
            if SemanticId::parse(s.as_str()).is_ok() {
                Ok(s.clone())
            } else {
                Err(refuse_at("read-reference", id))
            }
        },
        _ => Err(refuse_at("read-reference", id)),
    }
}

fn input_entry(v: &JsonValue, id: &str) -> (r: Result<SignatureField, Refusal>)
    ensures
        match input_of(*v, id@) {
            Ok(x) => r matches Ok(f) && f.name@ == x.name && f.ty@ == x.ty && f.required == x.required,
            Err(e) => r matches Err(y) && y@ == e,
        },
{
    let keys = vec!["name", "type", "required"];
    assert(key_texts(keys@) =~= input_keys());
    if let Err(e) = check_shape(v, &keys) {
        return Err(e);
    }
    let name = string_member(v, "name")?;
    if !is_field_name(name.as_str()) {
        return Err(refuse_at("input-name", id));
    }
    let ty = string_member(v, "type")?;
    if !is_type_expression(ty.as_str()) {
        return Err(refuse_at("input-type", id));
    }
    let required = match get(v, "required") {
        None => false,
        Some(JsonValue::Null) => false,
        Some(JsonValue::Bool(b)) => *b,
        Some(_) => return Err(refuse_at("input-required", id)),
    };
    Ok(SignatureField { name, ty, required })
}


/// The inputs parsed so far are exactly the input contents.
pub open spec fn inputs_match(fs: Seq<SignatureField>, xs: Seq<InputView>) -> bool {
    &&& fs.len() == xs.len()
    &&& forall|i: int| 0 <= i < fs.len() ==> (#[trigger] fs[i]).name@ == xs[i].name && fs[i].ty@ == xs[i].ty
        && fs[i].required == xs[i].required
}

proof fn lemma_inputs_err(items: Seq<JsonValue>, id: Seq<char>, k: int)
    requires
        0 <= k <= items.len(),
        inputs_of(items.take(k), id) is Err,
    ensures
        inputs_of(items, id) == inputs_of(items.take(k), id),
    decreases items.len() - k,
{
    if k == items.len() {
        assert(items.take(k) =~= items);
    } else {
        assert(items.take(k + 1).drop_last() =~= items.take(k));
        lemma_inputs_err(items, id, k + 1);
    }
}

proof fn lemma_effects_err(items: Seq<JsonValue>, k: int)
    requires
        0 <= k <= items.len(),
        effect_list(items.take(k)) is Err,
    ensures
        effect_list(items) == effect_list(items.take(k)),
    decreases items.len() - k,
{
    if k == items.len() {
        assert(items.take(k) =~= items);
    } else {
        assert(items.take(k + 1).drop_last() =~= items.take(k));
        lemma_effects_err(items, k + 1);
    }
}

/// Parse the signature inputs of symbol `id`.
fn signature_inputs(items: &[JsonValue], id: &str) -> (r: Result<Vec<SignatureField>, Refusal>)
    ensures
        match inputs_of(items@, id@) {
            Ok(xs) => r matches Ok(fs) && inputs_match(fs@, xs),
            Err(e) => r matches Err(y) && y@ == e,
        },
{
    let mut out: Vec<SignatureField> = Vec::new();
    let mut i: usize = 0;
    assert(items@.take(0) =~= Seq::<JsonValue>::empty());
    while i < items.len()
        invariant
            i <= items@.len(),
            inputs_of(items@.take(i as int), id@) is Ok,
            inputs_match(out@, inputs_of(items@.take(i as int), id@)->Ok_0),
        decreases items@.len() - i,
    {
        assert(items@.take(i + 1).drop_last() =~= items@.take(i as int));
        assert(items@.take(i + 1).last() == items@[i as int]);
        match input_entry(&items[i], id) {
            Ok(f) => {
                out.push(f);
            },
            Err(e) => {
                proof { lemma_inputs_err(items@, id@, i + 1); }
                return Err(e);
            },
        }
        i = i + 1;
    }
    assert(items@.take(items@.len() as int) =~= items@);
    Ok(out)
}

/// Parse the read references of symbol `id` into byte order without
/// repeats.
fn signature_reads(items: &[JsonValue], id: &str) -> (r: Result<Vec<String>, Refusal>)
    ensures
        match reads_of(items@, id@) {
            Ok(set) => r matches Ok(out) && canonical_texts(out@, set),
            Err(e) => r matches Err(y) && y@ == e,
        },
{
    let mut out: Vec<String> = Vec::new();
    let mut i: usize = 0;
    while i < items.len()
        invariant
            i <= items@.len(),
            out@.len() == i,
            forall|j: int| 0 <= j < i ==> read_ok(#[trigger] items@[j]),
            forall|j: int| 0 <= j < i ==> text_of(Some(#[trigger] items@[j])) == Some(out@[j]@),
        decreases items@.len() - i,
    {
        match check_read(&items[i], id) {
            Ok(s) => out.push(s),
            Err(e) => {
                assert(!read_ok(items@[i as int]));
                return Err(e);
            },
        }
        i = i + 1;
    }
    let ghost raw = out@;
    let sorted_out = sort_dedup(out);
    proof {
        let set = reads_of(items@, id@)->Ok_0;
        assert(!(exists|j: int| 0 <= j < items@.len() && !read_ok(#[trigger] items@[j])));
        assert forall|k: int| 0 <= k < sorted_out@.len() implies set.contains(#[trigger] sorted_out@[k]@) by {
            let j = choose|j: int| 0 <= j < raw.len() && raw[j] == sorted_out@[k];
            assert(text_of(Some(items@[j])) == Some(raw[j]@));
        }
        assert forall|x: Seq<char>| set.contains(x) implies
            exists|k: int| 0 <= k < sorted_out@.len() && #[trigger] sorted_out@[k]@ == x by {
            let j = choose|j: int| 0 <= j < items@.len() && #[trigger] text_of(Some(items@[j])) == Some(x);
            assert(raw[j]@ == x);
            assert(covered(sorted_out@, raw[j]));
            let k = choose|k: int| 0 <= k < sorted_out@.len() && #[trigger] equivalent(sorted_out@[k], raw[j]);
            lemma_text_equivalent(sorted_out@[k]@, raw[j]@);
        }
    }
    Ok(sorted_out)
}

fn effect_entry(v: &JsonValue) -> (r: Result<DeclaredEffect, Refusal>)
    ensures
        match effect_of(*v) {
            Ok(x) => r matches Ok(e) && effect_pair(e) == x,
            Err(e) => r matches Err(y) && y@ == e,
        },
{
    let keys = vec!["kind", "subject"];
    assert(key_texts(keys@) =~= effect_keys());
    if let Err(e) = check_shape(v, &keys) {
        return Err(e);
    }
    let kind = string_member(v, "kind")?;
    if !key_listed(&effect_kind_list(), kind.as_str()) {
        return Err(refuse_at("effect-kind", kind.as_str()));
    }
    let subject = string_member(v, "subject")?;
    if SemanticId::parse(subject.as_str()).is_err() && !is_entity_field_subject(subject.as_str()) {
        return Err(refuse_at("effect-subject", subject.as_str()));
    }
    Ok(DeclaredEffect { kind, subject })
}

/// The effect set of a list of effect entries.
pub open spec fn effect_set(items: Seq<JsonValue>) -> Set<(Seq<char>, Seq<char>)> {
    Set::new(|x: (Seq<char>, Seq<char>)| effect_list(items)->Ok_0.contains(x))
}

/// Parse the declared effects into `(kind, subject)` order without
/// repeats.
fn declared_effects(items: &[JsonValue]) -> (r: Result<Vec<DeclaredEffect>, Refusal>)
    ensures
        match effect_list(items@) {
            Ok(_) => r matches Ok(out) && canonical_effects(out@, effect_set(items@)),
            Err(e) => r matches Err(y) && y@ == e,
        },
{
    let mut out: Vec<DeclaredEffect> = Vec::new();
    let mut i: usize = 0;
    assert(items@.take(0) =~= Seq::<JsonValue>::empty());
    while i < items.len()
        invariant
            i <= items@.len(),
            effect_list(items@.take(i as int)) is Ok,
            out@.len() == i,
            forall|j: int| 0 <= j < i ==> effect_pair(#[trigger] out@[j]) == effect_list(items@.take(i as int))->Ok_0[j],
            effect_list(items@.take(i as int))->Ok_0.len() == i,
        decreases items@.len() - i,
    {
        assert(items@.take(i + 1).drop_last() =~= items@.take(i as int));
        assert(items@.take(i + 1).last() == items@[i as int]);
        match effect_entry(&items[i]) {
            Ok(e) => {
                out.push(e);
            },
            Err(e) => {
                proof { lemma_effects_err(items@, i + 1); }
                return Err(e);
            },
        }
        i = i + 1;
    }
    assert(items@.take(items@.len() as int) =~= items@);
    let ghost raw = out@;
    let ghost list = effect_list(items@)->Ok_0;
    let sorted_out = sort_dedup(out);
    proof {
        let set = effect_set(items@);
        assert forall|k: int| 0 <= k < sorted_out@.len() implies set.contains(#[trigger] effect_pair(sorted_out@[k])) by {
            let j = choose|j: int| 0 <= j < raw.len() && raw[j] == sorted_out@[k];
            assert(list[j] == effect_pair(raw[j]));
            assert(list.contains(effect_pair(raw[j])));
        }
        assert forall|x: (Seq<char>, Seq<char>)| set.contains(x) implies
            exists|k: int| 0 <= k < sorted_out@.len() && #[trigger] effect_pair(sorted_out@[k]) == x by {
            assert(list.contains(x));
            let j = choose|j: int| 0 <= j < list.len() && list[j] == x;
            assert(effect_pair(raw[j]) == x);
            assert(covered(sorted_out@, raw[j]));
            let k = choose|k: int| 0 <= k < sorted_out@.len() && #[trigger] equivalent(sorted_out@[k], raw[j]);
            lemma_text_lt_irreflexive(raw[j].kind@);
            lemma_text_lt_irreflexive(sorted_out@[k].kind@);
            lemma_text_lt_total(raw[j].kind@, sorted_out@[k].kind@);
            if text_lt(raw[j].kind@, sorted_out@[k].kind@) && text_lt(sorted_out@[k].kind@, raw[j].kind@) {
                lemma_text_lt_transitive(raw[j].kind@, sorted_out@[k].kind@, raw[j].kind@);
            }
            lemma_text_equivalent(sorted_out@[k].subject@, raw[j].subject@);
        }
    }
    Ok(sorted_out)
}


/// The line member of a source: absent or `null` is none; otherwise an
/// integer from 1 to 1,000,000.
pub open spec fn line_of(src: JsonValue, id: Seq<char>) -> Result<Option<u64>, RefusalView> {
    match member(src, "line"@) {
        None => Ok(None),
        Some(JsonValue::Null) => Ok(None),
        Some(JsonValue::Number(JsonNumber::Unsigned(n))) => if 1 <= n <= 1_000_000 {
            Ok(Some(n))
        } else {
            Err(invalid_at("source-line"@, id))
        },
        Some(_) => Err(invalid_at("source-line"@, id)),
    }
}

/// One declared symbol, or the refusal of its first bad member.
pub open spec fn symbol_of(v: JsonValue) -> Result<SymbolView, RefusalView> {
    let id = string_at(v, "id"@);
    let kind = string_at(v, "kind"@);
    if shape_error(v, symbol_keys()) is Some {
        Err(shape_error(v, symbol_keys()).unwrap())
    } else if id is Err {
        Err(id->Err_0)
    } else if !is_semantic_id(id->Ok_0) {
        Err(invalid_at("symbol-id"@, id->Ok_0))
    } else if kind is Err {
        Err(kind->Err_0)
    } else if SymbolKind::spec_parse(kind->Ok_0) is None {
        Err(invalid_at("symbol-kind"@, kind->Ok_0))
    } else if member(v, "source"@) is None {
        Err(missing("source"@))
    } else {
        let src = member(v, "source"@).unwrap();
        let path = string_at(src, "path"@);
        let fingerprint = opt_string_at(v, "fingerprint"@);
        let effects = opt_array_at(v, "effects"@);
        if shape_error(src, source_keys()) is Some {
            Err(shape_error(src, source_keys()).unwrap())
        } else if path is Err {
            Err(path->Err_0)
        } else if !source_path_ok(path->Ok_0) {
            Err(invalid_at("source-path"@, path->Ok_0))
        } else if line_of(src, id->Ok_0) is Err {
            Err(line_of(src, id->Ok_0)->Err_0)
        } else if fingerprint is Err {
            Err(fingerprint->Err_0)
        } else if fingerprint->Ok_0 matches Some(d) && !is_digest_text(d) {
            Err(invalid_at("fingerprint"@, id->Ok_0))
        } else if signature_of(v, id->Ok_0) is Err {
            Err(signature_of(v, id->Ok_0)->Err_0)
        } else if effects is Err {
            Err(effects->Err_0)
        } else if effects->Ok_0.len() > MAX_ATTACHMENTS {
            Err(RefusalView::Limit("effects"@, effects->Ok_0.len()))
        } else if effect_list(effects->Ok_0) is Err {
            Err(effect_list(effects->Ok_0)->Err_0)
        } else {
            Ok(SymbolView {
                id: id->Ok_0,
                kind: SymbolKind::spec_parse(kind->Ok_0).unwrap(),
                path: path->Ok_0,
                line: line_of(src, id->Ok_0)->Ok_0,
                fingerprint: fingerprint->Ok_0,
                signature: signature_of(v, id->Ok_0)->Ok_0,
                effects: effect_set(effects->Ok_0),
            })
        }
    }
}

/// The parsed signature has the content of the claim.
pub open spec fn signature_matches(s: Option<SignatureEvidence>, v: Option<SignatureView>) -> bool {
    match (s, v) {
        (None, None) => true,
        (Some(e), Some(x)) => {
            &&& inputs_match(e.inputs@, x.inputs)
            &&& match (e.output, x.output) {
                (None, None) => true,
                (Some(o), Some(t)) => o@ == t,
                _ => false,
            }
            &&& canonical_texts(e.reads@, x.reads)
        },
        _ => false,
    }
}

/// The parsed symbol has the content of the declaration.
pub open spec fn symbol_matches(s: DeclaredSymbol, v: SymbolView) -> bool {
    &&& s.id@ == v.id
    &&& s.kind == v.kind
    &&& s.source.path@ == v.path
    &&& s.source.line == v.line
    &&& match (s.fingerprint, v.fingerprint) {
        (None, None) => true,
        (Some(f), Some(t)) => f@ == t,
        _ => false,
    }
    &&& signature_matches(s.signature, v.signature)
    &&& canonical_effects(s.effects@, v.effects)
}

/// Parse the signature member of symbol `id`.
fn signature_member(v: &JsonValue, id: &str) -> (r: Result<Option<SignatureEvidence>, Refusal>)
    ensures
        match signature_of(*v, id@) {
            Ok(x) => r matches Ok(s) && signature_matches(s, x),
            Err(e) => r matches Err(y) && y@ == e,
        },
{
    let s = match get(v, "signature") {
        None => return Ok(None),
        Some(JsonValue::Null) => return Ok(None),
        Some(s) => s,
    };
    let keys = vec!["inputs", "output", "reads"];
    assert(key_texts(keys@) =~= signature_keys());
    if let Err(e) = check_shape(s, &keys) {
        return Err(e);
    }
    let inputs_member = optional_array(s, "inputs")?;
    if inputs_member.len() > MAX_ATTACHMENTS {
        return Err(refuse_limit("inputs", inputs_member.len()));
    }
    let inputs = signature_inputs(inputs_member, id)?;
    let output = optional_string_member(s, "output")?;
    match &output {
        Some(o) => {
            if !is_type_expression(o.as_str()) {
                return Err(refuse_at("output-type", id));
            }
        },
        None => {},
    }
    let reads_member = optional_array(s, "reads")?;
    if reads_member.len() > MAX_ATTACHMENTS {
        return Err(refuse_limit("reads", reads_member.len()));
    }
    let reads = signature_reads(reads_member, id)?;
    Ok(Some(SignatureEvidence { inputs, output, reads }))
}

/// Parse and validate one declared symbol: closed members, a semantic
/// id, a closed kind, a safe source path outside the Model home, a
/// bounded line, digest fingerprints, the typed signature claim, and
/// the declared effects in canonical order.
pub fn parse_symbol(v: &JsonValue) -> (r: Result<DeclaredSymbol, Refusal>)
    ensures
        match symbol_of(*v) {
            Ok(x) => r matches Ok(s) && symbol_matches(s, x),
            Err(e) => r matches Err(y) && y@ == e,
        },
{
    let keys = vec!["id", "kind", "source", "fingerprint", "signature", "effects"];
    assert(key_texts(keys@) =~= symbol_keys());
    if let Err(e) = check_shape(v, &keys) {
        return Err(e);
    }
    let id = string_member(v, "id")?;
    if SemanticId::parse(id.as_str()).is_err() {
        return Err(refuse_at("symbol-id", id.as_str()));
    }
    let kind_text = string_member(v, "kind")?;
    let kind = match SymbolKind::parse(kind_text.as_str()) {
        Some(k) => k,
        None => return Err(refuse_at("symbol-kind", kind_text.as_str())),
    };
    let src = match get(v, "source") {
        Some(src) => src,
        None => return Err(refuse_at("missing-key", "source")),
    };
    let source_keys_list = vec!["path", "line"];
    assert(key_texts(source_keys_list@) =~= source_keys());
    if let Err(e) = check_shape(src, &source_keys_list) {
        return Err(e);
    }
    let path = string_member(src, "path")?;
    if is_unsafe_path(path.as_str()) || str_starts_with(path.as_str(), "lekalo/") {
        return Err(refuse_at("source-path", path.as_str()));
    }
    let line = match get(src, "line") {
        None => None,
        Some(JsonValue::Null) => None,
        Some(JsonValue::Number(JsonNumber::Unsigned(n))) => {
            if 1 <= *n && *n <= 1_000_000 {
                Some(*n)
            } else {
                return Err(refuse_at("source-line", id.as_str()));
            }
        },
        Some(_) => return Err(refuse_at("source-line", id.as_str())),
    };
    let fingerprint = optional_string_member(v, "fingerprint")?;
    match &fingerprint {
        Some(d) => {
            if !crate::digest::is_digest(d.as_str()) {
                return Err(refuse_at("fingerprint", id.as_str()));
            }
        },
        None => {},
    }
    let signature = signature_member(v, id.as_str())?;
    let effects_member = optional_array(v, "effects")?;
    if effects_member.len() > MAX_ATTACHMENTS {
        return Err(refuse_limit("effects", effects_member.len()));
    }
    let effects = declared_effects(effects_member)?;
    Ok(DeclaredSymbol { id, kind, source: SourceLocation { path, line }, fingerprint, signature, effects })
}


// ---------------------------------------------------------------------
// Artifacts

/// The content of one support-artifact entry.
pub struct ArtifactView {
    pub symbol: Seq<char>,
    pub kind: SupportKind,
    pub path: Seq<char>,
    pub lifecycle: SupportLifecycle,
    pub digest: Option<Seq<char>>,
}

/// The closed support-artifact member set.
pub open spec fn artifact_keys() -> Seq<Seq<char>> {
    seq!["symbol"@, "kind"@, "path"@, "lifecycle"@, "digest"@]
}

/// One support-artifact entry, or the refusal of its first bad member.
pub open spec fn artifact_of(v: JsonValue) -> Result<ArtifactView, RefusalView> {
    let symbol = string_at(v, "symbol"@);
    let kind = string_at(v, "kind"@);
    let path = string_at(v, "path"@);
    let lifecycle = string_at(v, "lifecycle"@);
    let digest = opt_string_at(v, "digest"@);
    if shape_error(v, artifact_keys()) is Some {
        Err(shape_error(v, artifact_keys()).unwrap())
    } else if symbol is Err {
        Err(symbol->Err_0)
    } else if !is_semantic_id(symbol->Ok_0) {
        Err(invalid_at("artifact-symbol"@, symbol->Ok_0))
    } else if kind is Err {
        Err(kind->Err_0)
    } else if SupportKind::spec_parse(kind->Ok_0) is None {
        Err(invalid_at("artifact-kind"@, kind->Ok_0))
    } else if path is Err {
        Err(path->Err_0)
    } else if !support_path(path->Ok_0) {
        Err(invalid_at("artifact-path"@, path->Ok_0))
    } else if lifecycle is Err {
        Err(lifecycle->Err_0)
    } else if SupportLifecycle::spec_parse(lifecycle->Ok_0) is None {
        Err(invalid_at("artifact-lifecycle"@, lifecycle->Ok_0))
    } else if digest is Err {
        Err(digest->Err_0)
    } else if digest->Ok_0 matches Some(d) && !is_digest_text(d) {
        Err(invalid_at("artifact-digest"@, path->Ok_0))
    } else {
        Ok(ArtifactView {
            symbol: symbol->Ok_0,
            kind: SupportKind::spec_parse(kind->Ok_0).unwrap(),
            path: path->Ok_0,
            lifecycle: SupportLifecycle::spec_parse(lifecycle->Ok_0).unwrap(),
            digest: digest->Ok_0,
        })
    }
}

/// The parsed artifact has the content of the entry.
pub open spec fn artifact_matches(a: SupportArtifact, v: ArtifactView) -> bool {
    &&& a.symbol@ == v.symbol
    &&& a.kind == v.kind
    &&& a.path@ == v.path
    &&& a.lifecycle == v.lifecycle
    &&& match (a.digest, v.digest) {
        (None, None) => true,
        (Some(d), Some(t)) => d@ == t,
        _ => false,
    }
}

/// Parse and validate one support-artifact entry.
fn parse_artifact(v: &JsonValue) -> (r: Result<SupportArtifact, Refusal>)
    ensures
        match artifact_of(*v) {
            Ok(x) => r matches Ok(a) && artifact_matches(a, x),
            Err(e) => r matches Err(y) && y@ == e,
        },
{
    let keys = vec!["symbol", "kind", "path", "lifecycle", "digest"];
    assert(key_texts(keys@) =~= artifact_keys());
    if let Err(e) = check_shape(v, &keys) {
        return Err(e);
    }
    let symbol = string_member(v, "symbol")?;
    if SemanticId::parse(symbol.as_str()).is_err() {
        return Err(refuse_at("artifact-symbol", symbol.as_str()));
    }
    let kind_text = string_member(v, "kind")?;
    let kind = match SupportKind::parse(kind_text.as_str()) {
        Some(k) => k,
        None => return Err(refuse_at("artifact-kind", kind_text.as_str())),
    };
    let path = string_member(v, "path")?;
    if !is_support_path(path.as_str()) {
        return Err(refuse_at("artifact-path", path.as_str()));
    }
    let lifecycle_text = string_member(v, "lifecycle")?;
    let lifecycle = match SupportLifecycle::parse(lifecycle_text.as_str()) {
        Some(l) => l,
        None => return Err(refuse_at("artifact-lifecycle", lifecycle_text.as_str())),
    };
    let digest = optional_string_member(v, "digest")?;
    match &digest {
        Some(d) => {
            if !crate::digest::is_digest(d.as_str()) {
                return Err(refuse_at("artifact-digest", path.as_str()));
            }
        },
        None => {},
    }
    Ok(SupportArtifact { symbol, kind, path, lifecycle, digest })
}

// ---------------------------------------------------------------------
// Lists

/// The declared symbols in order; an entry whose id repeats an earlier
/// one is refused.
pub open spec fn symbols_of(items: Seq<JsonValue>) -> Result<Seq<SymbolView>, RefusalView>
    decreases items.len(),
{
    if items.len() == 0 {
        Ok(Seq::empty())
    } else {
        match symbols_of(items.drop_last()) {
            Err(e) => Err(e),
            Ok(prev) => match symbol_of(items.last()) {
                Err(e) => Err(e),
                Ok(x) => if exists|j: int| 0 <= j < prev.len() && #[trigger] prev[j].id == x.id {
                    Err(invalid_at("duplicate-id"@, x.id))
                } else {
                    Ok(prev.push(x))
                },
            },
        }
    }
}

/// The declared artifacts in order; an artifact owned by an undeclared
/// symbol, or repeating an earlier path, is refused.
pub open spec fn artifacts_of(items: Seq<JsonValue>, ids: Set<Seq<char>>) -> Result<Seq<ArtifactView>, RefusalView>
    decreases items.len(),
{
    if items.len() == 0 {
        Ok(Seq::empty())
    } else {
        match artifacts_of(items.drop_last(), ids) {
            Err(e) => Err(e),
            Ok(prev) => match artifact_of(items.last()) {
                Err(e) => Err(e),
                Ok(x) => if !ids.contains(x.symbol) {
                    Err(invalid_at("unresolved-artifact-symbol"@, x.symbol))
                } else if exists|j: int| 0 <= j < prev.len() && #[trigger] prev[j].path == x.path {
                    Err(invalid_at("duplicate-path"@, x.path))
                } else {
                    Ok(prev.push(x))
                },
            },
        }
    }
}

proof fn lemma_symbols_err(items: Seq<JsonValue>, k: int)
    requires
        0 <= k <= items.len(),
        symbols_of(items.take(k)) is Err,
    ensures
        symbols_of(items) == symbols_of(items.take(k)),
    decreases items.len() - k,
{
    if k == items.len() {
        assert(items.take(k) =~= items);
    } else {
        assert(items.take(k + 1).drop_last() =~= items.take(k));
        lemma_symbols_err(items, k + 1);
    }
}

proof fn lemma_artifacts_err(items: Seq<JsonValue>, ids: Set<Seq<char>>, k: int)
    requires
        0 <= k <= items.len(),
        artifacts_of(items.take(k), ids) is Err,
    ensures
        artifacts_of(items, ids) == artifacts_of(items.take(k), ids),
    decreases items.len() - k,
{
    if k == items.len() {
        assert(items.take(k) =~= items);
    } else {
        assert(items.take(k + 1).drop_last() =~= items.take(k));
        lemma_artifacts_err(items, ids, k + 1);
    }
}

/// The ids of declared symbols.
pub open spec fn symbol_ids(vs: Seq<SymbolView>) -> Set<Seq<char>> {
    Set::new(|x: Seq<char>| exists|j: int| 0 <= j < vs.len() && #[trigger] vs[j].id == x)
}

/// Whether some symbol carries the id.
fn has_symbol_id(symbols: &Vec<DeclaredSymbol>, id: &str) -> (r: bool)
    ensures
        r == exists|k: int| 0 <= k < symbols@.len() && (#[trigger] symbols@[k]).id@ == id@,
{
    let mut k: usize = 0;
    while k < symbols.len()
        invariant
            k <= symbols@.len(),
            forall|m: int| 0 <= m < k ==> (#[trigger] symbols@[m]).id@ != id@,
        decreases symbols@.len() - k,
    {
        if str_eq(symbols[k].id.as_str(), id) {
            return true;
        }
        k = k + 1;
    }
    false
}

/// Whether some artifact carries the path.
fn has_artifact_path(artifacts: &Vec<SupportArtifact>, path: &str) -> (r: bool)
    ensures
        r == exists|k: int| 0 <= k < artifacts@.len() && (#[trigger] artifacts@[k]).path@ == path@,
{
    let mut k: usize = 0;
    while k < artifacts.len()
        invariant
            k <= artifacts@.len(),
            forall|m: int| 0 <= m < k ==> (#[trigger] artifacts@[m]).path@ != path@,
        decreases artifacts@.len() - k,
    {
        if str_eq(artifacts[k].path.as_str(), path) {
            return true;
        }
        k = k + 1;
    }
    false
}

/// Parse every declared symbol, refusing repeated ids.
fn parse_symbols(items: &[JsonValue]) -> (r: Result<Vec<DeclaredSymbol>, Refusal>)
    ensures
        match symbols_of(items@) {
            Ok(xs) => r matches Ok(out) && out@.len() == xs.len()
                && forall|k: int| 0 <= k < xs.len() ==> symbol_matches(#[trigger] out@[k], xs[k]),
            Err(e) => r matches Err(y) && y@ == e,
        },
{
    let mut out: Vec<DeclaredSymbol> = Vec::new();
    let mut i: usize = 0;
    assert(items@.take(0) =~= Seq::<JsonValue>::empty());
    while i < items.len()
        invariant
            i <= items@.len(),
            symbols_of(items@.take(i as int)) is Ok,
            symbols_of(items@.take(i as int))->Ok_0.len() == i,
            out@.len() == i,
            forall|k: int| 0 <= k < i ==> symbol_matches(#[trigger] out@[k], symbols_of(items@.take(i as int))->Ok_0[k]),
        decreases items@.len() - i,
    {
        let ghost prev = symbols_of(items@.take(i as int))->Ok_0;
        assert(items@.take(i + 1).drop_last() =~= items@.take(i as int));
        assert(items@.take(i + 1).last() == items@[i as int]);
        let symbol = match parse_symbol(&items[i]) {
            Ok(s) => s,
            Err(e) => {
                proof { lemma_symbols_err(items@, i + 1); }
                return Err(e);
            },
        };
        if has_symbol_id(&out, symbol.id.as_str()) {
            proof {
                let k = choose|k: int| 0 <= k < out@.len() && (#[trigger] out@[k]).id@ == symbol.id@;
                assert(symbol_matches(out@[k], prev[k]));
                assert(prev[k].id == symbol.id@);
                lemma_symbols_err(items@, i + 1);
            }
            return Err(refuse_at("duplicate-id", symbol.id.as_str()));
        }
        proof {
            assert forall|k: int| 0 <= k < prev.len() implies prev[k].id != symbol.id@ by {
                assert(symbol_matches(out@[k], prev[k]));
            }
        }
        out.push(symbol);
        i = i + 1;
    }
    assert(items@.take(items@.len() as int) =~= items@);
    Ok(out)
}

/// Parse every declared artifact, refusing artifacts of undeclared
/// symbols and repeated paths.
fn parse_artifacts(items: &[JsonValue], symbols: &Vec<DeclaredSymbol>, Ghost(ids): Ghost<Set<Seq<char>>>)
    -> (r: Result<Vec<SupportArtifact>, Refusal>)
    requires
        forall|x: Seq<char>| ids.contains(x) <==> exists|k: int| 0 <= k < symbols@.len() && #[trigger] symbols@[k].id@ == x,
    ensures
        match artifacts_of(items@, ids) {
            Ok(xs) => r matches Ok(out) && out@.len() == xs.len()
                && forall|k: int| 0 <= k < xs.len() ==> artifact_matches(#[trigger] out@[k], xs[k]),
            Err(e) => r matches Err(y) && y@ == e,
        },
{
    let mut out: Vec<SupportArtifact> = Vec::new();
    let mut i: usize = 0;
    assert(items@.take(0) =~= Seq::<JsonValue>::empty());
    while i < items.len()
        invariant
            i <= items@.len(),
            forall|x: Seq<char>| ids.contains(x) <==> exists|k: int| 0 <= k < symbols@.len() && #[trigger] symbols@[k].id@ == x,
            artifacts_of(items@.take(i as int), ids) is Ok,
            artifacts_of(items@.take(i as int), ids)->Ok_0.len() == i,
            out@.len() == i,
            forall|k: int| 0 <= k < i ==> artifact_matches(#[trigger] out@[k], artifacts_of(items@.take(i as int), ids)->Ok_0[k]),
        decreases items@.len() - i,
    {
        let ghost prev = artifacts_of(items@.take(i as int), ids)->Ok_0;
        assert(items@.take(i + 1).drop_last() =~= items@.take(i as int));
        assert(items@.take(i + 1).last() == items@[i as int]);
        let artifact = match parse_artifact(&items[i]) {
            Ok(a) => a,
            Err(e) => {
                proof { lemma_artifacts_err(items@, ids, i + 1); }
                return Err(e);
            },
        };
        if !has_symbol_id(symbols, artifact.symbol.as_str()) {
            proof { lemma_artifacts_err(items@, ids, i + 1); }
            return Err(refuse_at("unresolved-artifact-symbol", artifact.symbol.as_str()));
        }
        if has_artifact_path(&out, artifact.path.as_str()) {
            proof {
                let k = choose|k: int| 0 <= k < out@.len() && (#[trigger] out@[k]).path@ == artifact.path@;
                assert(artifact_matches(out@[k], prev[k]));
                lemma_artifacts_err(items@, ids, i + 1);
            }
            return Err(refuse_at("duplicate-path", artifact.path.as_str()));
        }
        proof {
            assert forall|k: int| 0 <= k < prev.len() implies prev[k].path != artifact.path@ by {
                assert(artifact_matches(out@[k], prev[k]));
            }
        }
        out.push(artifact);
        i = i + 1;
    }
    assert(items@.take(items@.len() as int) =~= items@);
    Ok(out)
}


// ---------------------------------------------------------------------
// The document

/// The content of a validated declaration document.
pub struct DocumentView {
    pub adapter: (Seq<char>, Seq<char>, Option<Seq<char>>),
    pub project: Seq<char>,
    pub revision: Seq<char>,
    pub symbols: Seq<SymbolView>,
    pub artifacts: Seq<ArtifactView>,
}

/// The closed top-level member set.
pub open spec fn top_level_keys() -> Seq<Seq<char>> {
    seq!["schemaVersion"@, "adapter"@, "project"@, "revision"@, "symbols"@, "artifacts"@]
}

/// The closed adapter member set.
pub open spec fn adapter_keys() -> Seq<Seq<char>> {
    seq!["id"@, "version"@, "digest"@]
}

/// The adapter identity `(id, version, digest)`, or the refusal of its
/// first bad member.
pub open spec fn adapter_of(v: JsonValue) -> Result<(Seq<char>, Seq<char>, Option<Seq<char>>), RefusalView> {
    let id = string_at(v, "id"@);
    let version = string_at(v, "version"@);
    let digest = opt_string_at(v, "digest"@);
    if shape_error(v, adapter_keys()) is Some {
        Err(shape_error(v, adapter_keys()).unwrap())
    } else if id is Err {
        Err(id->Err_0)
    } else if !adapter_id(id->Ok_0) {
        Err(invalid_at("adapter-id"@, id->Ok_0))
    } else if version is Err {
        Err(version->Err_0)
    } else if !contract_version(version->Ok_0) {
        Err(invalid("adapter-version"@))
    } else if digest is Err {
        Err(digest->Err_0)
    } else if digest->Ok_0 matches Some(d) && !is_digest_text(d) {
        Err(invalid("adapter-digest"@))
    } else {
        Ok((id->Ok_0, version->Ok_0, digest->Ok_0))
    }
}

/// A parsed document, or the refusal of its first bad member in
/// document order.
pub open spec fn document_of(v: JsonValue) -> Result<DocumentView, RefusalView> {
    let schema = string_at(v, "schemaVersion"@);
    let project = string_at(v, "project"@);
    let revision = string_at(v, "revision"@);
    if shape_error(v, top_level_keys()) is Some {
        Err(shape_error(v, top_level_keys()).unwrap())
    } else if schema is Err {
        Err(schema->Err_0)
    } else if schema->Ok_0 != DECLARATION_SCHEMA_VERSION@ {
        Err(invalid("schema-version"@))
    } else if member(v, "adapter"@) is None {
        Err(missing("adapter"@))
    } else if adapter_of(member(v, "adapter"@).unwrap()) is Err {
        Err(adapter_of(member(v, "adapter"@).unwrap())->Err_0)
    } else if project is Err {
        Err(project->Err_0)
    } else if byte_len(project->Ok_0) == 0 || byte_len(project->Ok_0) > 64 {
        Err(invalid_at("project-id"@, project->Ok_0))
    } else if revision is Err {
        Err(revision->Err_0)
    } else if !is_digest_text(revision->Ok_0) {
        Err(invalid("revision"@))
    } else if member(v, "symbols"@) is None {
        Err(missing("symbols"@))
    } else if array_of(member(v, "symbols"@)) is None {
        Err(invalid("symbols-array"@))
    } else {
        let items = array_of(member(v, "symbols"@)).unwrap();
        let artifacts = opt_array_at(v, "artifacts"@);
        if items.len() > MAX_SYMBOLS {
            Err(RefusalView::Limit("symbols"@, items.len()))
        } else if symbols_of(items) is Err {
            Err(symbols_of(items)->Err_0)
        } else if artifacts is Err {
            Err(artifacts->Err_0)
        } else if artifacts->Ok_0.len() > MAX_SUPPORT_ARTIFACTS {
            Err(RefusalView::Limit("artifacts"@, artifacts->Ok_0.len()))
        } else if artifacts_of(artifacts->Ok_0, symbol_ids(symbols_of(items)->Ok_0)) is Err {
            Err(artifacts_of(artifacts->Ok_0, symbol_ids(symbols_of(items)->Ok_0))->Err_0)
        } else {
            Ok(DocumentView {
                adapter: adapter_of(member(v, "adapter"@).unwrap())->Ok_0,
                project: project->Ok_0,
                revision: revision->Ok_0,
                symbols: symbols_of(items)->Ok_0,
                artifacts: artifacts_of(artifacts->Ok_0, symbol_ids(symbols_of(items)->Ok_0))->Ok_0,
            })
        }
    }
}

/// The outcome of declaration bytes: the byte bound, UTF-8, JSON
/// syntax, then the document.
pub open spec fn declaration_outcome(bytes: Seq<u8>) -> Result<DocumentView, RefusalView> {
    if bytes.len() > MAX_REGISTRY_BYTES {
        Err(RefusalView::Limit("declaration-bytes"@, bytes.len()))
    } else if !vstd::utf8::valid_utf8(bytes) {
        Err(invalid("invalid-encoding"@))
    } else if parsed_json(bytes) is None {
        Err(invalid("invalid-json"@))
    } else {
        document_of(parsed_json(bytes).unwrap())
    }
}

/// The parsed document has the content of the declaration.
pub open spec fn document_matches(d: DeclarationDocument, v: DocumentView) -> bool {
    &&& d.adapter.id@ == v.adapter.0
    &&& d.adapter.version@ == v.adapter.1
    &&& match (d.adapter.digest, v.adapter.2) {
        (None, None) => true,
        (Some(x), Some(t)) => x@ == t,
        _ => false,
    }
    &&& d.project@ == v.project
    &&& d.revision@ == v.revision
    &&& d.symbols@.len() == v.symbols.len()
    &&& forall|k: int| 0 <= k < v.symbols.len() ==> symbol_matches(#[trigger] d.symbols@[k], v.symbols[k])
    &&& d.artifacts@.len() == v.artifacts.len()
    &&& forall|k: int| 0 <= k < v.artifacts.len() ==> artifact_matches(#[trigger] d.artifacts@[k], v.artifacts[k])
}

fn adapter_member(v: &JsonValue) -> (r: Result<AdapterIdentity, Refusal>)
    ensures
        match adapter_of(*v) {
            Ok(x) => r matches Ok(a) && a.id@ == x.0 && a.version@ == x.1 && match (a.digest, x.2) {
                (None, None) => true,
                (Some(d), Some(t)) => d@ == t,
                _ => false,
            },
            Err(e) => r matches Err(y) && y@ == e,
        },
{
    let keys = vec!["id", "version", "digest"];
    assert(key_texts(keys@) =~= adapter_keys());
    if let Err(e) = check_shape(v, &keys) {
        return Err(e);
    }
    let id = string_member(v, "id")?;
    if !is_adapter_id(id.as_str()) {
        return Err(refuse_at("adapter-id", id.as_str()));
    }
    let version = string_member(v, "version")?;
    if !is_contract_version(version.as_str()) {
        return Err(refuse("adapter-version"));
    }
    let digest = optional_string_member(v, "digest")?;
    match &digest {
        Some(d) => {
            if !crate::digest::is_digest(d.as_str()) {
                return Err(refuse("adapter-digest"));
            }
        },
        None => {},
    }
    Ok(AdapterIdentity { id, version, digest })
}

/// Validate one parsed declaration document.
pub fn parse_document(v: &JsonValue) -> (r: Result<DeclarationDocument, Refusal>)
    ensures
        match document_of(*v) {
            Ok(x) => r matches Ok(d) && document_matches(d, x),
            Err(e) => r matches Err(y) && y@ == e,
        },
{
    let keys = vec!["schemaVersion", "adapter", "project", "revision", "symbols", "artifacts"];
    assert(key_texts(keys@) =~= top_level_keys());
    if let Err(e) = check_shape(v, &keys) {
        return Err(e);
    }
    let schema = string_member(v, "schemaVersion")?;
    if !str_eq(schema.as_str(), DECLARATION_SCHEMA_VERSION) {
        return Err(refuse("schema-version"));
    }
    let adapter_value = match get(v, "adapter") {
        Some(a) => a,
        None => return Err(refuse_at("missing-key", "adapter")),
    };
    let adapter = adapter_member(adapter_value)?;
    let project = string_member(v, "project")?;
    let n = project.as_str().as_bytes().len();
    if n == 0 || n > 64 {
        return Err(refuse_at("project-id", project.as_str()));
    }
    let revision = string_member(v, "revision")?;
    if !crate::digest::is_digest(revision.as_str()) {
        return Err(refuse("revision"));
    }
    let items = match get(v, "symbols") {
        None => return Err(refuse_at("missing-key", "symbols")),
        Some(JsonValue::Array(items)) => items,
        Some(_) => return Err(refuse("symbols-array")),
    };
    if items.len() > MAX_SYMBOLS {
        return Err(refuse_limit("symbols", items.len()));
    }
    let symbols = parse_symbols(items.as_slice())?;
    let artifacts_member = optional_array(v, "artifacts")?;
    if artifacts_member.len() > MAX_SUPPORT_ARTIFACTS {
        return Err(refuse_limit("artifacts", artifacts_member.len()));
    }
    let ghost views = symbols_of(items@)->Ok_0;
    let ghost ids = symbol_ids(views);
    proof {
        assert forall|x: Seq<char>| ids.contains(x) <==>
            exists|k: int| 0 <= k < symbols@.len() && #[trigger] symbols@[k].id@ == x by {
            if ids.contains(x) {
                let j = choose|j: int| 0 <= j < views.len() && #[trigger] views[j].id == x;
                assert(symbol_matches(symbols@[j], views[j]));
            }
            if exists|k: int| 0 <= k < symbols@.len() && #[trigger] symbols@[k].id@ == x {
                let k = choose|k: int| 0 <= k < symbols@.len() && #[trigger] symbols@[k].id@ == x;
                assert(symbol_matches(symbols@[k], views[k]));
                assert(views[k].id == x);
            }
        }
    }
    let artifacts = parse_artifacts(artifacts_member, &symbols, Ghost(ids))?;
    Ok(DeclarationDocument { adapter, project, revision, symbols, artifacts })
}

/// Parse and validate one declaration document from raw bytes; the
/// refusal is the first violation in document order.
pub fn parse_declaration(bytes: &[u8]) -> (r: Result<DeclarationDocument, Refusal>)
    ensures
        match declaration_outcome(bytes@) {
            Ok(x) => r matches Ok(d) && document_matches(d, x),
            Err(e) => r matches Err(y) && y@ == e,
        },
{
    if bytes.len() > MAX_REGISTRY_BYTES {
        return Err(refuse_limit("declaration-bytes", bytes.len()));
    }
    if !crate::text::is_utf8(bytes) {
        return Err(refuse("invalid-encoding"));
    }
    let value = match parse_json(bytes) {
        Some(v) => v,
        None => return Err(refuse("invalid-json")),
    };
    parse_document(&value)
}

/// The registered set of one refusal.
pub open spec fn refusal_set(e: Seq<DiagnosticView>, x: RefusalView) -> bool {
    match x {
        RefusalView::Invalid(detail, target) => {
            &&& e.len() == 1
            &&& contracted_item(e[0], "contracted.declaration-invalid"@, None)
            &&& e[0].data.len() == if target is Some { 2int } else { 1int }
            &&& token_member(e[0].data[0], "detail"@, token_of(detail))
            &&& (target matches Some(t) ==> token_member(e[0].data[1], "target"@, token_of(t)))
        },
        RefusalView::Limit(limit, found) => {
            &&& e.len() == 1
            &&& contracted_item(e[0], "contracted.declaration-limit"@, None)
            &&& e[0].data.len() == 2
            &&& e[0].data[0].0 == "found"@
            &&& e[0].data[0].1 == DataValue::Count(found as u64)
            &&& token_member(e[0].data[1], "limit"@, token_of(limit))
        },
    }
}

/// The registered diagnostic set of a refusal.
pub fn refusal_diagnostics(r: &Refusal) -> (e: DiagnosticSet)
    ensures
        refusal_set(e@, r@),
{
    match r {
        Refusal::Invalid(detail, target) => match target {
            Some(t) => declaration_invalid_set(detail.as_str(), Some(t.as_str())),
            None => declaration_invalid_set(detail.as_str(), None),
        },
        Refusal::Limit(limit, found) => declaration_limit_set(limit.as_str(), *found),
    }
}

/// Parse raw declaration bytes into the typed document, or the one
/// registered refusal set of its first violation.
pub fn parse_declaration_bytes(bytes: &[u8]) -> (r: Result<DeclarationDocument, DiagnosticSet>)
    ensures
        match declaration_outcome(bytes@) {
            Ok(x) => r matches Ok(d) && document_matches(d, x),
            Err(e) => r matches Err(set) && refusal_set(set@, e),
        },
{
    match parse_declaration(bytes) {
        Ok(d) => Ok(d),
        Err(e) => Err(refusal_diagnostics(&e)),
    }
}

} // verus!
