//! The JSON document model that the attachment grammars read, with the
//! trusted bridge to `serde_json` for parsing and rendering.

use vstd::prelude::*;
use crate::text::str_eq;

verus! {

/// A JSON number as the parser reported it.
#[derive(Clone, Debug, PartialEq, Eq)]
pub enum JsonNumber {
    /// A non-negative integer that fits `u64`.
    Unsigned(u64),
    /// A negative integer that fits `i64`.
    Negative(i64),
    /// Any other number, kept as its decimal spelling.
    Decimal(String),
}

/// One JSON value. Object members keep the order the parser gave them
/// (byte order of the keys, each key once).
#[derive(Debug)]
pub enum JsonValue {
    Null,
    Bool(bool),
    Number(JsonNumber),
    Text(String),
    Array(Vec<JsonValue>),
    Object(Vec<(String, JsonValue)>),
}

/// The first member of `fields` named `key`.
pub open spec fn lookup(fields: Seq<(String, JsonValue)>, key: Seq<char>) -> Option<JsonValue>
    decreases fields.len(),
{
    if fields.len() == 0 {
        None
    } else if fields[0].0@ == key {
        Some(fields[0].1)
    } else {
        lookup(fields.drop_first(), key)
    }
}

/// The member named `key` of an object value; `None` for a missing
/// member or a value that is not an object.
pub open spec fn member(v: JsonValue, key: Seq<char>) -> Option<JsonValue> {
    match v {
        JsonValue::Object(fields) => lookup(fields@, key),
        _ => None,
    }
}

/// The text of a string value.
pub open spec fn text_of(v: Option<JsonValue>) -> Option<Seq<char>> {
    match v {
        Some(JsonValue::Text(s)) => Some(s@),
        _ => None,
    }
}

/// The flag of a boolean value.
pub open spec fn bool_of(v: Option<JsonValue>) -> Option<bool> {
    match v {
        Some(JsonValue::Bool(b)) => Some(b),
        _ => None,
    }
}

/// The items of an array value.
pub open spec fn array_of(v: Option<JsonValue>) -> Option<Seq<JsonValue>> {
    match v {
        Some(JsonValue::Array(items)) => Some(items@),
        _ => None,
    }
}

/// Whether a value is an object.
pub open spec fn is_object(v: JsonValue) -> bool {
    v is Object
}

/// Whether every member name of an object is one of `keys`.
pub open spec fn members_within(v: JsonValue, keys: Seq<Seq<char>>) -> bool {
    match v {
        JsonValue::Object(fields) => forall|i: int|
            0 <= i < fields@.len() ==> keys.contains(#[trigger] fields@[i].0@),
        _ => true,
    }
}

/// `serde_json`'s document tree, carried only inside the bridge below.
#[verifier::external_type_specification]
#[verifier::external_body]
pub struct ExSerdeValue(serde_json::Value);

/// `serde_json`'s number, carried only inside the bridge below.
#[verifier::external_type_specification]
#[verifier::external_body]
pub struct ExSerdeNumber(serde_json::Number);

/// What `serde_json` parses from the given bytes; `None` when it refuses
/// them.
pub uninterp spec fn parsed_json(bytes: Seq<u8>) -> Option<JsonValue>;

/// The compact text that `serde_json` writes for a value of this
/// content.
pub uninterp spec fn rendered_json(v: JsonTree) -> Seq<char>;

/// Parses JSON bytes with `serde_json::from_slice` into a
/// `serde_json::Value` and converts it one for one. The contract claims
/// only that the result is the parser's verdict on these bytes.
#[verifier::external_body]
pub fn parse_json(bytes: &[u8]) -> (r: Option<JsonValue>)
    ensures
        r == parsed_json(bytes@),
{
    match serde_json::from_slice::<serde_json::Value>(bytes) {
        Ok(value) => Some(from_serde(&value)),
        Err(_) => None,
    }
}

/// Writes a value with `serde_json::to_string` (compact, no trailing
/// newline). The contract claims only that the text is the writer's
/// output for this value.
#[verifier::external_body]
pub fn render_json(v: &JsonValue) -> (r: String)
    ensures
        r@ == rendered_json(tree(*v)),
{
    serde_json::to_string(&to_serde(v)).unwrap_or_default()
}

/// One-for-one conversion from `serde_json::Value`.
#[verifier::external_body]
fn from_serde(value: &serde_json::Value) -> JsonValue {
    match value {
        serde_json::Value::Null => JsonValue::Null,
        serde_json::Value::Bool(b) => JsonValue::Bool(*b),
        serde_json::Value::Number(n) => JsonValue::Number(number_from_serde(n)),
        serde_json::Value::String(s) => JsonValue::Text(s.clone()),
        serde_json::Value::Array(items) => JsonValue::Array(items.iter().map(from_serde).collect()),
        serde_json::Value::Object(map) => JsonValue::Object(map.iter().map(|(k, v)| (k.clone(), from_serde(v))).collect()),
    }
}

/// One-for-one conversion of a `serde_json::Number`: an unsigned or a
/// negative integer where it is one, else its exact decimal text.
#[verifier::external_body]
fn number_from_serde(n: &serde_json::Number) -> JsonNumber {
    match (n.as_u64(), n.as_i64()) {
        (Some(u), _) => JsonNumber::Unsigned(u),
        (None, Some(i)) => JsonNumber::Negative(i),
        _ => JsonNumber::Decimal(n.to_string()),
    }
}

/// One-for-one conversion of a number into `serde_json::Value`.
#[verifier::external_body]
fn number_to_serde(n: &JsonNumber) -> serde_json::Value {
    match n {
        JsonNumber::Unsigned(u) => serde_json::Value::from(*u),
        JsonNumber::Negative(i) => serde_json::Value::from(*i),
        JsonNumber::Decimal(d) => d.parse::<serde_json::Number>().map(serde_json::Value::Number).unwrap_or(serde_json::Value::Null),
    }
}

/// One-for-one conversion into `serde_json::Value`.
#[verifier::external_body]
fn to_serde(value: &JsonValue) -> serde_json::Value {
    match value {
        JsonValue::Null => serde_json::Value::Null,
        JsonValue::Bool(b) => serde_json::Value::Bool(*b),
        JsonValue::Number(n) => number_to_serde(n),
        JsonValue::Text(s) => serde_json::Value::String(s.clone()),
        JsonValue::Array(items) => serde_json::Value::Array(items.iter().map(to_serde).collect()),
        JsonValue::Object(fields) => serde_json::Value::Object(fields.iter().map(|(k, v)| (k.clone(), to_serde(v))).collect()),
    }
}


/// Looking a key up after appending one member: an earlier member
/// with that key still wins.
pub proof fn lemma_lookup_push(fields: Seq<(String, JsonValue)>, x: (String, JsonValue), key: Seq<char>)
    ensures
        lookup(fields.push(x), key) == match lookup(fields, key) {
            Some(v) => Some(v),
            None => if x.0@ == key { Some(x.1) } else { None },
        },
    decreases fields.len(),
{
    if fields.len() == 0 {
        assert(fields.push(x).drop_first() =~= Seq::<(String, JsonValue)>::empty());
        assert(fields.push(x)[0] == x);
        assert(lookup(Seq::<(String, JsonValue)>::empty(), key) is None);
    } else {
        assert(fields.push(x).drop_first() =~= fields.drop_first().push(x));
        assert(fields.push(x)[0] == fields[0]);
        lemma_lookup_push(fields.drop_first(), x, key);
    }
}

/// The number of members of an object value (zero otherwise).
pub open spec fn member_count(v: JsonValue) -> nat {
    match v {
        JsonValue::Object(fields) => fields@.len(),
        _ => 0,
    }
}

/// The text items of an array value.
pub open spec fn texts_of(items: Seq<JsonValue>, texts: Seq<Seq<char>>) -> bool {
    &&& items.len() == texts.len()
    &&& forall|i: int| 0 <= i < items.len() ==> text_of(Some(#[trigger] items[i])) == Some(texts[i])
}

/// A JSON array of the given texts.
pub fn text_array(texts: &Vec<String>) -> (r: JsonValue)
    ensures
        r is Array,
        texts_of(r->Array_0@, texts@.map_values(|t: String| t@)),
        tree(r) == JsonTree::Array(text_trees(texts@)),
{
    let mut items: Vec<JsonValue> = Vec::new();
    let mut i: usize = 0;
    while i < texts.len()
        invariant
            i <= texts@.len(),
            items@.len() == i,
            forall|j: int| 0 <= j < i ==> text_of(Some(#[trigger] items@[j])) == Some(texts@[j]@),
        decreases texts@.len() - i,
    {
        items.push(JsonValue::Text(texts[i].clone()));
        i = i + 1;
    }
    proof {
        assert forall|j: int| 0 <= j < items@.len() implies trees(items@)[j] == text_trees(texts@)[j] by {
            assert(text_of(Some(items@[j])) == Some(texts@[j]@));
        }
        assert(trees(items@) =~= text_trees(texts@));
    }
    JsonValue::Array(items)
}

/// The contents of a list of strings.
pub open spec fn text_trees(s: Seq<String>) -> Seq<JsonTree> {
    s.map_values(|t: String| JsonTree::Text(t@))
}


/// With no earlier member of the same name, the member at `i` is the
/// one a lookup of its name finds.
pub proof fn lemma_lookup_at(fields: Seq<(String, JsonValue)>, i: int)
    requires
        0 <= i < fields.len(),
        forall|j: int| 0 <= j < i ==> (#[trigger] fields[j]).0@ != fields[i].0@,
    ensures
        lookup(fields, fields[i].0@) == Some(fields[i].1),
    decreases i,
{
    if i > 0 {
        let rest = fields.drop_first();
        assert forall|j: int| 0 <= j < i - 1 implies (#[trigger] rest[j]).0@ != rest[i - 1].0@ by {
            assert(rest[j] == fields[j + 1]);
        }
        lemma_lookup_at(rest, i - 1);
        assert(rest[i - 1] == fields[i]);
    }
}

/// A name that no member carries is not found.
pub proof fn lemma_lookup_absent(fields: Seq<(String, JsonValue)>, key: Seq<char>)
    requires
        forall|j: int| 0 <= j < fields.len() ==> (#[trigger] fields[j]).0@ != key,
    ensures
        lookup(fields, key) is None,
    decreases fields.len(),
{
    if fields.len() > 0 {
        let rest = fields.drop_first();
        assert forall|j: int| 0 <= j < rest.len() implies (#[trigger] rest[j]).0@ != key by {
            assert(rest[j] == fields[j + 1]);
        }
        lemma_lookup_absent(rest, key);
    }
}

/// The member of an object named `key`.
pub fn get<'a>(v: &'a JsonValue, key: &str) -> (r: Option<&'a JsonValue>)
    ensures
        match r {
            Some(x) => member(*v, key@) == Some(*x),
            None => member(*v, key@) is None,
        },
{
    match v {
        JsonValue::Object(fields) => {
            let mut i: usize = 0;
            assert(fields@.subrange(0, fields@.len() as int) =~= fields@);
            while i < fields.len()
                invariant
                    i <= fields@.len(),
                    member(*v, key@) == lookup(fields@, key@),
                    lookup(fields@, key@) == lookup(fields@.subrange(i as int, fields@.len() as int), key@),
                decreases fields@.len() - i,
            {
                assert(fields@.subrange(i as int, fields@.len() as int).drop_first()
                    =~= fields@.subrange(i + 1, fields@.len() as int));
                assert(fields@.subrange(i as int, fields@.len() as int)[0] == fields@[i as int]);
                if str_eq(fields[i].0.as_str(), key) {
                    assert(lookup(fields@.subrange(i as int, fields@.len() as int), key@)
                        == Some(fields@[i as int].1));
                    return Some(&fields[i].1);
                }
                i = i + 1;
            }
            None
        },
        _ => None,
    }
}

/// The text of a string member.
pub fn get_text<'a>(v: &'a JsonValue, key: &str) -> (r: Option<&'a str>)
    ensures
        match r {
            Some(s) => text_of(member(*v, key@)) == Some(s@),
            None => text_of(member(*v, key@)) is None,
        },
{
    match get(v, key) {
        Some(JsonValue::Text(s)) => Some(s.as_str()),
        _ => None,
    }
}


/// The items of an array member.
pub fn get_array<'a>(v: &'a JsonValue, key: &str) -> (r: Option<&'a Vec<JsonValue>>)
    ensures
        match r {
            Some(items) => array_of(member(*v, key@)) == Some(items@),
            None => array_of(member(*v, key@)) is None,
        },
{
    match get(v, key) {
        Some(JsonValue::Array(items)) => Some(items),
        _ => None,
    }
}

/// The flag of a boolean member.
pub fn get_bool(v: &JsonValue, key: &str) -> (r: Option<bool>)
    ensures
        r == bool_of(member(*v, key@)),
{
    match get(v, key) {
        Some(JsonValue::Bool(b)) => Some(*b),
        _ => None,
    }
}

/// The text of a string value.
pub fn as_text(v: &JsonValue) -> (r: Option<&str>)
    ensures
        match r {
            Some(s) => text_of(Some(*v)) == Some(s@),
            None => text_of(Some(*v)) is None,
        },
{
    match v {
        JsonValue::Text(s) => Some(s.as_str()),
        _ => None,
    }
}

/// The texts of a list of member names.
pub open spec fn key_texts(keys: Seq<&str>) -> Seq<Seq<char>> {
    keys.map_values(|k: &str| k@)
}

/// Whether one of `keys` is `name`.
pub fn key_listed(keys: &Vec<&str>, name: &str) -> (r: bool)
    ensures
        r == key_texts(keys@).contains(name@),
{
    let ghost view = key_texts(keys@);
    let mut i: usize = 0;
    while i < keys.len()
        invariant
            i <= keys@.len(),
            view == key_texts(keys@),
            forall|j: int| 0 <= j < i ==> view[j] != name@,
        decreases keys@.len() - i,
    {
        if str_eq(keys[i], name) {
            assert(view[i as int] == name@);
            return true;
        }
        i = i + 1;
    }
    false
}

/// Whether every member name of an object is one of `keys` (a value
/// that is not an object has no members).
pub fn check_members(v: &JsonValue, keys: &Vec<&str>) -> (r: bool)
    ensures
        r == members_within(*v, key_texts(keys@)),
{
    match v {
        JsonValue::Object(fields) => {
            let mut i: usize = 0;
            while i < fields.len()
                invariant
                    i <= fields@.len(),
                    *v == JsonValue::Object(*fields),
                    forall|j: int| 0 <= j < i ==> key_texts(keys@).contains(#[trigger] fields@[j].0@),
                decreases fields@.len() - i,
            {
                if !key_listed(keys, fields[i].0.as_str()) {
                    assert(!key_texts(keys@).contains(fields@[i as int].0@));
                    assert(!(forall|j: int| 0 <= j < fields@.len() ==> key_texts(keys@).contains(#[trigger] fields@[j].0@)));
                    assert(*v is Object);
                    assert(v->Object_0 == *fields);
                    assert(!members_within(*v, key_texts(keys@)));
                    return false;
                }
                i = i + 1;
            }
            true
        },
        _ => true,
    }
}

/// Whether a member is present.
pub fn has_member(v: &JsonValue, key: &str) -> (r: bool)
    ensures
        r == (member(*v, key@) is Some),
{
    get(v, key).is_some()
}


// ---------------------------------------------------------------------
// Shapes of written values

/// What one member of a written object must hold: its name and a
/// predicate on its value.
pub type MemberShape = (Seq<char>, spec_fn(JsonValue) -> bool);

/// The members are exactly the shapes, in order.
pub open spec fn members_are(fields: Seq<(String, JsonValue)>, want: Seq<MemberShape>) -> bool {
    &&& fields.len() == want.len()
    &&& forall|i: int| 0 <= i < fields.len() ==> (#[trigger] fields[i]).0@ == want[i].0 && (want[i].1)(fields[i].1)
}

/// An object whose members are exactly the shapes, in order.
pub open spec fn object_is(v: JsonValue, want: Seq<MemberShape>) -> bool {
    v matches JsonValue::Object(fields) && members_are(fields@, want)
}

/// A string of the given text.
pub open spec fn text_is(t: Seq<char>) -> spec_fn(JsonValue) -> bool {
    |v: JsonValue| v matches JsonValue::Text(s) && s@ == t
}

/// A boolean of the given value.
pub open spec fn flag_is(b: bool) -> spec_fn(JsonValue) -> bool {
    |v: JsonValue| v == JsonValue::Bool(b)
}

/// An array of strings of the given texts.
pub open spec fn texts_are(ts: Seq<Seq<char>>) -> spec_fn(JsonValue) -> bool {
    |v: JsonValue| v matches JsonValue::Array(items) && texts_of(items@, ts)
}

/// The shape when `present`, else no member.
pub open spec fn optional_member(present: bool, shape: MemberShape) -> Seq<MemberShape> {
    if present { seq![shape] } else { Seq::empty() }
}

/// Every value the predicate admits has the same content.
pub open spec fn determines(p: spec_fn(JsonValue) -> bool) -> bool {
    forall|v1: JsonValue, v2: JsonValue| #![trigger p(v1), p(v2)] p(v1) && p(v2) ==> tree(v1) == tree(v2)
}

/// Every member shape pins its value's content.
pub open spec fn shapes_determine(want: Seq<MemberShape>) -> bool {
    forall|i: int| 0 <= i < want.len() ==> determines(#[trigger] want[i].1)
}

/// Two objects with the same exact member shapes have the same content
/// when each shape pins its value.
pub proof fn lemma_object_determined(w1: JsonValue, w2: JsonValue, want: Seq<MemberShape>)
    requires
        object_is(w1, want),
        object_is(w2, want),
        shapes_determine(want),
    ensures
        tree(w1) == tree(w2),
{
    let f1 = w1->Object_0@;
    let f2 = w2->Object_0@;
    assert forall|i: int| 0 <= i < f1.len() implies #[trigger] field_trees(f1)[i] == field_trees(f2)[i] by {
        assert(f1[i].0@ == want[i].0 && f2[i].0@ == want[i].0);
        assert((want[i].1)(f1[i].1) && (want[i].1)(f2[i].1));
        assert(determines(want[i].1));
    }
    assert(field_trees(f1) =~= field_trees(f2));
}

/// An object shape pins its content when each member shape does.
pub proof fn lemma_object_shape_determines(want: Seq<MemberShape>)
    requires
        shapes_determine(want),
    ensures
        determines(|v: JsonValue| object_is(v, want)),
{
    assert forall|v1: JsonValue, v2: JsonValue| object_is(v1, want) && object_is(v2, want) implies tree(v1) == tree(v2) by {
        lemma_object_determined(v1, v2, want);
    }
}

/// A text shape pins its content.
pub proof fn lemma_text_is_determines(t: Seq<char>)
    ensures
        determines(text_is(t)),
{
    assert forall|v1: JsonValue, v2: JsonValue| (text_is(t))(v1) && (text_is(t))(v2) implies tree(v1) == tree(v2) by {}
}

/// A flag shape pins its content.
pub proof fn lemma_flag_is_determines(b: bool)
    ensures
        determines(flag_is(b)),
{
    assert forall|v1: JsonValue, v2: JsonValue| (flag_is(b))(v1) && (flag_is(b))(v2) implies tree(v1) == tree(v2) by {}
}

/// A text-array shape pins its content.
pub proof fn lemma_texts_are_determines(ts: Seq<Seq<char>>)
    ensures
        determines(texts_are(ts)),
{
    assert forall|v1: JsonValue, v2: JsonValue| (texts_are(ts))(v1) && (texts_are(ts))(v2) implies tree(v1) == tree(v2) by {
        let a = v1->Array_0@;
        let b = v2->Array_0@;
        assert forall|i: int| 0 <= i < a.len() implies #[trigger] trees(a)[i] == trees(b)[i] by {
            assert(text_of(Some(a[i])) == Some(ts[i]));
            assert(text_of(Some(b[i])) == Some(ts[i]));
        }
        assert(trees(a) =~= trees(b));
    }
}

/// Joined member lists pin their values when both parts do.
pub proof fn lemma_shapes_join(a: Seq<MemberShape>, b: Seq<MemberShape>)
    requires
        shapes_determine(a),
        shapes_determine(b),
    ensures
        shapes_determine(a + b),
{
    assert forall|i: int| 0 <= i < (a + b).len() implies determines(#[trigger] (a + b)[i].1) by {
        if i < a.len() {
            assert((a + b)[i] == a[i]);
        } else {
            assert((a + b)[i] == b[i - a.len()]);
        }
    }
}

/// An optional member pins its value when its shape does.
pub proof fn lemma_optional_determines(present: bool, shape: MemberShape)
    requires
        determines(shape.1),
    ensures
        shapes_determine(optional_member(present, shape)),
{
    if present {
        assert(optional_member(present, shape)[0] == shape);
    }
}

/// Appending one member that has its shape keeps the members exact.
pub proof fn lemma_members_push(fields: Seq<(String, JsonValue)>, want: Seq<MemberShape>,
    x: (String, JsonValue), w: MemberShape)
    requires
        members_are(fields, want),
        x.0@ == w.0,
        (w.1)(x.1),
    ensures
        members_are(fields.push(x), want.push(w)),
{
    assert forall|i: int| 0 <= i < fields.push(x).len() implies (#[trigger] fields.push(x)[i]).0@ == want.push(w)[i].0
        && (want.push(w)[i].1)(fields.push(x)[i].1) by {
        if i < fields.len() {
            assert(fields.push(x)[i] == fields[i]);
        }
    }
}

/// Append one member and record its shape.
pub fn push_member(fields: &mut Vec<(String, JsonValue)>, name: &str, value: JsonValue)
    ensures
        final(fields)@ == old(fields)@.push((final(fields)@.last().0, value)),
        final(fields)@.last().0@ == name@,
{
    fields.push((name.to_owned(), value));
}

/// A string value of the given text.
pub fn text_value(t: &str) -> (r: JsonValue)
    ensures
        text_is(t@)(r),
{
    JsonValue::Text(t.to_owned())
}


/// Append the next member of an object whose shapes are `want`, in
/// order: after the call the members are the first shapes of `want`.
pub fn push_nth(fields: &mut Vec<(String, JsonValue)>, name: &str, value: JsonValue, Ghost(want): Ghost<Seq<MemberShape>>)
    requires
        old(fields)@.len() < want.len(),
        members_are(old(fields)@, want.take(old(fields)@.len() as int)),
        want[old(fields)@.len() as int].0 == name@,
        (want[old(fields)@.len() as int].1)(value),
    ensures
        final(fields)@.len() == old(fields)@.len() + 1,
        members_are(final(fields)@, want.take(final(fields)@.len() as int)),
        final(fields)@.len() == want.len() ==> members_are(final(fields)@, want),
{
    let ghost before = fields@;
    let ghost k = before.len() as int;
    fields.push((name.to_owned(), value));
    proof {
        lemma_members_push(before, want.take(k), fields@.last(), want[k]);
        assert(fields@ == before.push(fields@.last()));
        assert(want.take(k).push(want[k]) =~= want.take(k + 1));
        assert(want.take(want.len() as int) =~= want);
    }
}


// ---------------------------------------------------------------------
// The content of a value

/// The content of a number.
pub enum NumberTree {
    Unsigned(u64),
    Negative(i64),
    Decimal(Seq<char>),
}

/// The content of a value: texts as character sequences, members in
/// order.
pub enum JsonTree {
    Null,
    Bool(bool),
    Number(NumberTree),
    Text(Seq<char>),
    Array(Seq<JsonTree>),
    Object(Seq<(Seq<char>, JsonTree)>),
}

/// The content of a number.
pub open spec fn number_tree(n: JsonNumber) -> NumberTree {
    match n {
        JsonNumber::Unsigned(u) => NumberTree::Unsigned(u),
        JsonNumber::Negative(i) => NumberTree::Negative(i),
        JsonNumber::Decimal(d) => NumberTree::Decimal(d@),
    }
}

/// The content of a value.
pub open spec fn tree(v: JsonValue) -> JsonTree
    decreases v, 0int,
{
    match v {
        JsonValue::Null => JsonTree::Null,
        JsonValue::Bool(b) => JsonTree::Bool(b),
        JsonValue::Number(n) => JsonTree::Number(number_tree(n)),
        JsonValue::Text(s) => JsonTree::Text(s@),
        JsonValue::Array(items) => JsonTree::Array(trees(items@)),
        JsonValue::Object(fields) => JsonTree::Object(field_trees(fields@)),
    }
}

/// The contents of a list of values.
pub open spec fn trees(s: Seq<JsonValue>) -> Seq<JsonTree>
    decreases s, 1int,
{
    Seq::new(s.len(), |i: int| if 0 <= i < s.len() { tree(s[i]) } else { JsonTree::Null })
}

/// The contents of a list of members.
pub open spec fn field_trees(s: Seq<(String, JsonValue)>) -> Seq<(Seq<char>, JsonTree)>
    decreases s, 1int,
{
    Seq::new(s.len(), |i: int| if 0 <= i < s.len() { (s[i].0@, tree(s[i].1)) } else { (Seq::empty(), JsonTree::Null) })
}


/// Append the next member of an object whose content is `want`, in
/// order: after the call the members' content is the first entries of
/// `want`.
pub fn push_entry(fields: &mut Vec<(String, JsonValue)>, name: &str, value: JsonValue,
    Ghost(want): Ghost<Seq<(Seq<char>, JsonTree)>>)
    requires
        old(fields)@.len() < want.len(),
        field_trees(old(fields)@) == want.take(old(fields)@.len() as int),
        want[old(fields)@.len() as int] == (name@, tree(value)),
    ensures
        final(fields)@.len() == old(fields)@.len() + 1,
        field_trees(final(fields)@) == want.take(final(fields)@.len() as int),
{
    let ghost before = fields@;
    let ghost k = before.len() as int;
    fields.push((name.to_owned(), value));
    proof {
        assert(fields@ == before.push(fields@.last()));
        assert(field_trees(fields@) =~= want.take(k + 1)) by {
            assert forall|i: int| 0 <= i < k + 1 implies field_trees(fields@)[i] == want.take(k + 1)[i] by {
                if i < k {
                    assert(fields@[i] == before[i]);
                    assert(field_trees(before)[i] == want.take(k)[i]);
                }
            }
        }
    }
}

/// A finished object's content is its members' content.
pub proof fn lemma_object_tree(fields: Vec<(String, JsonValue)>, want: Seq<(Seq<char>, JsonTree)>)
    requires
        fields@.len() == want.len(),
        field_trees(fields@) == want.take(fields@.len() as int),
    ensures
        tree(JsonValue::Object(fields)) == JsonTree::Object(want),
{
    assert(want.take(want.len() as int) =~= want);
}

} // verus!
