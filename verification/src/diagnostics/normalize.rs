//! Normalizing one result set of diagnostics: nested lists sorted,
//! machine duplicates removed, members in one total order, so that the
//! output never depends on the order producers emitted them in.

use vstd::prelude::*;
use super::id::OriginalCode;
use super::item::{Diagnostic, DiagnosticView, data_view, metadata_view};
use super::set::{DiagnosticSet, SetError, views};
use super::types::{DataFieldType, DataValue, NestedValue, Scalar, Severity, Status};
use crate::json::{JsonNumber, JsonTree, JsonValue, NumberTree, field_trees, lemma_object_tree, push_entry, render_json, rendered_json, tree, trees};
use crate::sorting::{Ordered, sort};
use super::item::Range;
use crate::text::{decimal, push_decimal, text_lt, lemma_text_lt_irreflexive, lemma_text_lt_total, lemma_text_lt_transitive, str_eq, str_lt};

verus! {

broadcast use vstd::seq_lib::group_to_multiset_ensures;

// ---------------------------------------------------------------------
// Lexicographic keys

/// One component of a sort key: a number or a text. Numbers sort
/// before texts; texts compare by their UTF-8 bytes.
pub enum Atom {
    Num(int),
    Txt(Seq<char>),
}

/// Strict order of two key components.
pub open spec fn atom_lt(a: Atom, b: Atom) -> bool {
    match a {
        Atom::Num(x) => match b {
            Atom::Num(y) => x < y,
            Atom::Txt(_) => true,
        },
        Atom::Txt(x) => match b {
            Atom::Num(_) => false,
            Atom::Txt(y) => text_lt(x, y),
        },
    }
}

/// Lexicographic strict order of two keys; a proper prefix sorts first.
pub open spec fn atoms_lt(a: Seq<Atom>, b: Seq<Atom>) -> bool
    decreases a.len(),
{
    if b.len() == 0 {
        false
    } else if a.len() == 0 {
        true
    } else if a[0] != b[0] {
        atom_lt(a[0], b[0])
    } else {
        atoms_lt(a.drop_first(), b.drop_first())
    }
}

/// `a` sorts no later than `b`.
pub open spec fn atoms_le(a: Seq<Atom>, b: Seq<Atom>) -> bool {
    !atoms_lt(b, a)
}

proof fn lemma_atom_lt(a: Atom, b: Atom, c: Atom)
    ensures
        !atom_lt(a, a),
        atom_lt(a, b) && atom_lt(b, c) ==> atom_lt(a, c),
        a == b || atom_lt(a, b) || atom_lt(b, a),
{
    match a {
        Atom::Txt(x) => {
            lemma_text_lt_irreflexive(x);
            match b {
                Atom::Txt(y) => {
                    lemma_text_lt_total(x, y);
                    match c {
                        Atom::Txt(z) => {
                            if text_lt(x, y) && text_lt(y, z) {
                                lemma_text_lt_transitive(x, y, z);
                            }
                        },
                        _ => {},
                    }
                },
                _ => {},
            }
        },
        _ => {},
    }
}

proof fn lemma_atoms_lt_irreflexive(a: Seq<Atom>)
    ensures
        !atoms_lt(a, a),
    decreases a.len(),
{
    if a.len() > 0 {
        lemma_atoms_lt_irreflexive(a.drop_first());
    }
}

proof fn lemma_atoms_lt_total(a: Seq<Atom>, b: Seq<Atom>)
    ensures
        a == b || atoms_lt(a, b) || atoms_lt(b, a),
    decreases a.len(),
{
    if a.len() == 0 && b.len() == 0 {
        assert(a =~= b);
    } else if a.len() > 0 && b.len() > 0 {
        if a[0] != b[0] {
            lemma_atom_lt(a[0], b[0], a[0]);
        } else {
            lemma_atoms_lt_total(a.drop_first(), b.drop_first());
            if a.drop_first() == b.drop_first() {
                assert(a =~= seq![a[0]] + a.drop_first());
                assert(b =~= seq![b[0]] + b.drop_first());
            }
        }
    }
}

proof fn lemma_atoms_lt_transitive(a: Seq<Atom>, b: Seq<Atom>, c: Seq<Atom>)
    requires
        atoms_lt(a, b),
        atoms_lt(b, c),
    ensures
        atoms_lt(a, c),
    decreases a.len(),
{
    if a.len() > 0 {
        lemma_atom_lt(a[0], b[0], c[0]);
        if a[0] == b[0] && b[0] == c[0] {
            lemma_atoms_lt_transitive(a.drop_first(), b.drop_first(), c.drop_first());
        }
    }
}

/// Keys form a total order: `atoms_le` is total, transitive, and
/// antisymmetric.
pub proof fn lemma_atoms_le_order(a: Seq<Atom>, b: Seq<Atom>, c: Seq<Atom>)
    ensures
        atoms_le(a, a),
        atoms_le(a, b) || atoms_le(b, a),
        atoms_le(a, b) && atoms_le(b, c) ==> atoms_le(a, c),
        atoms_le(a, b) && atoms_le(b, a) ==> a == b,
{
    lemma_atoms_lt_irreflexive(a);
    lemma_atoms_lt_total(a, b);
    lemma_atoms_lt_total(a, c);
    lemma_atoms_lt_total(b, c);
    if atoms_lt(a, b) && atoms_lt(b, a) {
        lemma_atoms_lt_transitive(a, b, a);
    }
    if atoms_le(a, b) && atoms_le(b, c) && atoms_lt(c, a) {
        if a != b {
            lemma_atoms_lt_transitive(c, a, b);
        }
    }
}

/// One executable key component.
pub enum KeyPart {
    Num(u64),
    Txt(String),
}

/// The component a key part stands for.
pub open spec fn part_atom(p: KeyPart) -> Atom {
    match p {
        KeyPart::Num(n) => Atom::Num(n as int),
        KeyPart::Txt(t) => Atom::Txt(t@),
    }
}

/// The key a list of parts stands for.
pub open spec fn part_atoms(ps: Seq<KeyPart>) -> Seq<Atom> {
    ps.map_values(|p: KeyPart| part_atom(p))
}

/// Lexicographic comparison of two keys.
pub fn parts_lt(a: &Vec<KeyPart>, b: &Vec<KeyPart>) -> (r: bool)
    ensures
        r == atoms_lt(part_atoms(a@), part_atoms(b@)),
{
    let ghost pa = part_atoms(a@);
    let ghost pb = part_atoms(b@);
    let mut i: usize = 0;
    assert(pa.skip(0) =~= pa);
    assert(pb.skip(0) =~= pb);
    loop
        invariant
            i <= a@.len(),
            i <= b@.len(),
            pa == part_atoms(a@),
            pb == part_atoms(b@),
            atoms_lt(pa, pb) == atoms_lt(pa.skip(i as int), pb.skip(i as int)),
        decreases a@.len() - i,
    {
        if i == b.len() {
            assert(pb.skip(i as int).len() == 0);
            return false;
        }
        if i == a.len() {
            assert(pa.skip(i as int).len() == 0);
            return true;
        }
        let ghost sa = pa.skip(i as int);
        let ghost sb = pb.skip(i as int);
        assert(sa[0] == part_atom(a@[i as int]));
        assert(sb[0] == part_atom(b@[i as int]));
        match (&a[i], &b[i]) {
            (KeyPart::Num(x), KeyPart::Num(y)) => {
                if *x != *y {
                    return *x < *y;
                }
            },
            (KeyPart::Txt(x), KeyPart::Txt(y)) => {
                if !str_eq(x.as_str(), y.as_str()) {
                    return str_lt(x.as_str(), y.as_str());
                }
            },
            (KeyPart::Num(_), KeyPart::Txt(_)) => {
                return true;
            },
            (KeyPart::Txt(_), KeyPart::Num(_)) => {
                return false;
            },
        }
        assert(sa.drop_first() =~= pa.skip(i + 1));
        assert(sb.drop_first() =~= pb.skip(i + 1));
        i = i + 1;
    }
}

/// A member paired with its sort key.
pub struct Keyed<T> {
    pub key: Vec<KeyPart>,
    pub item: T,
}

impl<T> Ordered for Keyed<T> {
    open spec fn spec_le(&self, other: &Self) -> bool {
        atoms_le(part_atoms(self.key@), part_atoms(other.key@))
    }

    proof fn lemma_total(a: &Self, b: &Self) {
        lemma_atoms_le_order(part_atoms(a.key@), part_atoms(b.key@), part_atoms(a.key@));
    }

    proof fn lemma_transitive(a: &Self, b: &Self, c: &Self) {
        lemma_atoms_le_order(part_atoms(a.key@), part_atoms(b.key@), part_atoms(c.key@));
    }

    fn le(&self, other: &Self) -> (r: bool) {
        !parts_lt(&other.key, &self.key)
    }
}


// ---------------------------------------------------------------------
// The JSON content of diagnostic data

/// A scalar in its externally tagged form, `{"Token": ..}`.
pub open spec fn scalar_tree(s: Scalar) -> JsonTree {
    match s {
        Scalar::Token(t) => JsonTree::Object(seq![("Token"@, JsonTree::Text(t@))]),
        Scalar::Count(n) => JsonTree::Object(seq![("Count"@, JsonTree::Number(NumberTree::Unsigned(n)))]),
        Scalar::Flag(b) => JsonTree::Object(seq![("Flag"@, JsonTree::Bool(b))]),
    }
}

/// A record of scalars.
pub open spec fn scalar_fields_tree(fs: Seq<(String, Scalar)>) -> JsonTree {
    JsonTree::Object(fs.map_values(|f: (String, Scalar)| (f.0@, scalar_tree(f.1))))
}

/// A value inside a record: a scalar or a record of scalars.
pub open spec fn nested_tree(v: NestedValue) -> JsonTree {
    match v {
        NestedValue::Scalar(s) => scalar_tree(s),
        NestedValue::Record(fs) => scalar_fields_tree(fs@),
    }
}

/// A flat record.
pub open spec fn record_tree(fs: Seq<(String, NestedValue)>) -> JsonTree {
    JsonTree::Object(fs.map_values(|f: (String, NestedValue)| (f.0@, nested_tree(f.1))))
}

/// One data value, untagged.
pub open spec fn data_tree(v: DataValue) -> JsonTree {
    match v {
        DataValue::Token(t) => JsonTree::Text(t@),
        DataValue::Count(n) => JsonTree::Number(NumberTree::Unsigned(n)),
        DataValue::Flag(b) => JsonTree::Bool(b),
        DataValue::List(ss) => JsonTree::Array(ss@.map_values(|x: Scalar| scalar_tree(x))),
        DataValue::Records(rs) => JsonTree::Array(rs@.map_values(|r: Vec<(String, NestedValue)>| record_tree(r@))),
        DataValue::Record(fs) => record_tree(fs@),
    }
}

/// The data object of a diagnostic.
pub open spec fn data_object_tree(d: Seq<(Seq<char>, DataValue)>) -> JsonTree {
    JsonTree::Object(d.map_values(|m: (Seq<char>, DataValue)| (m.0, data_tree(m.1))))
}

/// The provider metadata: namespaces holding named original codes.
pub open spec fn metadata_tree(m: Seq<(Seq<char>, Seq<(Seq<char>, Seq<char>)>)>) -> JsonTree {
    JsonTree::Object(m.map_values(|e: (Seq<char>, Seq<(Seq<char>, Seq<char>)>)|
        (e.0, JsonTree::Object(e.1.map_values(|c: (Seq<char>, Seq<char>)| (c.0, JsonTree::Text(c.1)))))))
}

/// The nested payload: related locations, causes, and fixes (none in
/// this model), then the provider metadata.
pub open spec fn payload_tree(m: Seq<(Seq<char>, Seq<(Seq<char>, Seq<char>)>)>) -> JsonTree {
    JsonTree::Array(seq![
        JsonTree::Array(Seq::empty()),
        JsonTree::Array(Seq::empty()),
        JsonTree::Array(Seq::empty()),
        metadata_tree(m),
    ])
}

proof fn lemma_trees_push(s: Seq<JsonValue>, x: JsonValue)
    ensures
        trees(s.push(x)) == trees(s).push(tree(x)),
{
    assert forall|k: int| 0 <= k < s.len() + 1 implies #[trigger] trees(s.push(x))[k] == trees(s).push(tree(x))[k] by {
        if k < s.len() {
            assert(s.push(x)[k] == s[k]);
        }
    }
    assert(trees(s.push(x)) =~= trees(s).push(tree(x)));
}

/// A one-member object.
fn tagged(tag: &str, value: JsonValue) -> (r: JsonValue)
    ensures
        tree(r) == JsonTree::Object(seq![(tag@, tree(value))]),
{
    let ghost t = tree(value);
    let mut fields: Vec<(String, JsonValue)> = Vec::new();
    fields.push((tag.to_owned(), value));
    assert(field_trees(fields@) =~= seq![(tag@, t)]);
    JsonValue::Object(fields)
}

fn text_json(t: &str) -> (r: JsonValue)
    ensures
        tree(r) == JsonTree::Text(t@),
{
    JsonValue::Text(t.to_owned())
}

fn scalar_json(s: &Scalar) -> (r: JsonValue)
    ensures
        tree(r) == scalar_tree(*s),
{
    match s {
        Scalar::Token(t) => tagged("Token", text_json(t.as_str())),
        Scalar::Count(n) => tagged("Count", JsonValue::Number(JsonNumber::Unsigned(*n))),
        Scalar::Flag(b) => tagged("Flag", JsonValue::Bool(*b)),
    }
}

fn scalar_fields_json(fs: &Vec<(String, Scalar)>) -> (r: JsonValue)
    ensures
        tree(r) == scalar_fields_tree(fs@),
{
    let ghost want = fs@.map_values(|f: (String, Scalar)| (f.0@, scalar_tree(f.1)));
    let mut fields: Vec<(String, JsonValue)> = Vec::new();
    assert(field_trees(fields@) =~= want.take(0));
    let mut i: usize = 0;
    while i < fs.len()
        invariant
            i <= fs@.len(),
            fields@.len() == i,
            want == fs@.map_values(|f: (String, Scalar)| (f.0@, scalar_tree(f.1))),
            field_trees(fields@) == want.take(i as int),
        decreases fs@.len() - i,
    {
        let v = scalar_json(&fs[i].1);
        push_entry(&mut fields, fs[i].0.as_str(), v, Ghost(want));
        i = i + 1;
    }
    proof { lemma_object_tree(fields, want); }
    JsonValue::Object(fields)
}

fn nested_json(v: &NestedValue) -> (r: JsonValue)
    ensures
        tree(r) == nested_tree(*v),
{
    match v {
        NestedValue::Scalar(s) => scalar_json(s),
        NestedValue::Record(fs) => scalar_fields_json(fs),
    }
}

fn record_json(fs: &Vec<(String, NestedValue)>) -> (r: JsonValue)
    ensures
        tree(r) == record_tree(fs@),
{
    let ghost want = fs@.map_values(|f: (String, NestedValue)| (f.0@, nested_tree(f.1)));
    let mut fields: Vec<(String, JsonValue)> = Vec::new();
    assert(field_trees(fields@) =~= want.take(0));
    let mut i: usize = 0;
    while i < fs.len()
        invariant
            i <= fs@.len(),
            fields@.len() == i,
            want == fs@.map_values(|f: (String, NestedValue)| (f.0@, nested_tree(f.1))),
            field_trees(fields@) == want.take(i as int),
        decreases fs@.len() - i,
    {
        let v = nested_json(&fs[i].1);
        push_entry(&mut fields, fs[i].0.as_str(), v, Ghost(want));
        i = i + 1;
    }
    proof { lemma_object_tree(fields, want); }
    JsonValue::Object(fields)
}

fn scalars_json(ss: &Vec<Scalar>) -> (r: JsonValue)
    ensures
        tree(r) == JsonTree::Array(ss@.map_values(|x: Scalar| scalar_tree(x))),
{
    let ghost want = ss@.map_values(|x: Scalar| scalar_tree(x));
    let mut items: Vec<JsonValue> = Vec::new();
    assert(trees(items@) =~= want.take(0));
    let mut i: usize = 0;
    while i < ss.len()
        invariant
            i <= ss@.len(),
            want == ss@.map_values(|x: Scalar| scalar_tree(x)),
            trees(items@) == want.take(i as int),
        decreases ss@.len() - i,
    {
        let v = scalar_json(&ss[i]);
        proof { lemma_trees_push(items@, v); }
        items.push(v);
        assert(want.take(i as int).push(want[i as int]) =~= want.take(i + 1));
        i = i + 1;
    }
    assert(want.take(ss@.len() as int) =~= want);
    JsonValue::Array(items)
}

fn rows_json(rs: &Vec<Vec<(String, NestedValue)>>) -> (r: JsonValue)
    ensures
        tree(r) == JsonTree::Array(rs@.map_values(|x: Vec<(String, NestedValue)>| record_tree(x@))),
{
    let ghost want = rs@.map_values(|x: Vec<(String, NestedValue)>| record_tree(x@));
    let mut items: Vec<JsonValue> = Vec::new();
    assert(trees(items@) =~= want.take(0));
    let mut i: usize = 0;
    while i < rs.len()
        invariant
            i <= rs@.len(),
            want == rs@.map_values(|x: Vec<(String, NestedValue)>| record_tree(x@)),
            trees(items@) == want.take(i as int),
        decreases rs@.len() - i,
    {
        let v = record_json(&rs[i]);
        proof { lemma_trees_push(items@, v); }
        items.push(v);
        assert(want.take(i as int).push(want[i as int]) =~= want.take(i + 1));
        i = i + 1;
    }
    assert(want.take(rs@.len() as int) =~= want);
    JsonValue::Array(items)
}

fn data_value_json(v: &DataValue) -> (r: JsonValue)
    ensures
        tree(r) == data_tree(*v),
{
    match v {
        DataValue::Token(t) => text_json(t.as_str()),
        DataValue::Count(n) => JsonValue::Number(JsonNumber::Unsigned(*n)),
        DataValue::Flag(b) => JsonValue::Bool(*b),
        DataValue::List(ss) => scalars_json(ss),
        DataValue::Records(rs) => rows_json(rs),
        DataValue::Record(fs) => record_json(fs),
    }
}

/// The JSON value of a diagnostic's data object.
fn data_object_json(d: &Vec<(String, DataValue)>) -> (r: JsonValue)
    ensures
        tree(r) == data_object_tree(data_view(d@)),
{
    let ghost want = data_view(d@).map_values(|m: (Seq<char>, DataValue)| (m.0, data_tree(m.1)));
    let mut fields: Vec<(String, JsonValue)> = Vec::new();
    assert(field_trees(fields@) =~= want.take(0));
    let mut i: usize = 0;
    while i < d.len()
        invariant
            i <= d@.len(),
            fields@.len() == i,
            want == data_view(d@).map_values(|m: (Seq<char>, DataValue)| (m.0, data_tree(m.1))),
            field_trees(fields@) == want.take(i as int),
        decreases d@.len() - i,
    {
        let v = data_value_json(&d[i].1);
        assert(data_view(d@)[i as int] == (d@[i as int].0@, d@[i as int].1));
        push_entry(&mut fields, d[i].0.as_str(), v, Ghost(want));
        i = i + 1;
    }
    proof { lemma_object_tree(fields, want); }
    JsonValue::Object(fields)
}

fn codes_json(cs: &Vec<(String, OriginalCode)>) -> (r: JsonValue)
    ensures
        tree(r) == JsonTree::Object(cs@.map_values(|c: (String, OriginalCode)| (c.0@, c.1@)).map_values(
            |c: (Seq<char>, Seq<char>)| (c.0, JsonTree::Text(c.1)))),
{
    let ghost want = cs@.map_values(|c: (String, OriginalCode)| (c.0@, c.1@)).map_values(
        |c: (Seq<char>, Seq<char>)| (c.0, JsonTree::Text(c.1)));
    let mut fields: Vec<(String, JsonValue)> = Vec::new();
    assert(field_trees(fields@) =~= want.take(0));
    let mut i: usize = 0;
    while i < cs.len()
        invariant
            i <= cs@.len(),
            fields@.len() == i,
            want == cs@.map_values(|c: (String, OriginalCode)| (c.0@, c.1@)).map_values(
                |c: (Seq<char>, Seq<char>)| (c.0, JsonTree::Text(c.1))),
            field_trees(fields@) == want.take(i as int),
        decreases cs@.len() - i,
    {
        let v = text_json(cs[i].1.as_str());
        push_entry(&mut fields, cs[i].0.as_str(), v, Ghost(want));
        i = i + 1;
    }
    proof { lemma_object_tree(fields, want); }
    JsonValue::Object(fields)
}

/// The JSON value of a diagnostic's provider metadata.
fn metadata_json(m: &Vec<(String, Vec<(String, OriginalCode)>)>) -> (r: JsonValue)
    ensures
        tree(r) == metadata_tree(metadata_view(m@)),
{
    let ghost mv = metadata_view(m@);
    let ghost want = mv.map_values(|e: (Seq<char>, Seq<(Seq<char>, Seq<char>)>)|
        (e.0, JsonTree::Object(e.1.map_values(|c: (Seq<char>, Seq<char>)| (c.0, JsonTree::Text(c.1))))));
    let mut fields: Vec<(String, JsonValue)> = Vec::new();
    assert(field_trees(fields@) =~= want.take(0));
    let mut i: usize = 0;
    while i < m.len()
        invariant
            i <= m@.len(),
            fields@.len() == i,
            mv == metadata_view(m@),
            want == mv.map_values(|e: (Seq<char>, Seq<(Seq<char>, Seq<char>)>)|
                (e.0, JsonTree::Object(e.1.map_values(|c: (Seq<char>, Seq<char>)| (c.0, JsonTree::Text(c.1)))))),
            field_trees(fields@) == want.take(i as int),
        decreases m@.len() - i,
    {
        let v = codes_json(&m[i].1);
        assert(mv[i as int] == (m@[i as int].0@, m@[i as int].1@.map_values(|c: (String, OriginalCode)| (c.0@, c.1@))));
        push_entry(&mut fields, m[i].0.as_str(), v, Ghost(want));
        i = i + 1;
    }
    proof { lemma_object_tree(fields, want); }
    JsonValue::Object(fields)
}

/// The JSON value of a diagnostic's nested payload.
fn payload_json(m: &Vec<(String, Vec<(String, OriginalCode)>)>) -> (r: JsonValue)
    ensures
        tree(r) == payload_tree(metadata_view(m@)),
{
    let mut items: Vec<JsonValue> = Vec::new();
    items.push(JsonValue::Array(Vec::new()));
    items.push(JsonValue::Array(Vec::new()));
    items.push(JsonValue::Array(Vec::new()));
    let meta = metadata_json(m);
    let ghost mt = tree(meta);
    items.push(meta);
    proof {
        let e = Seq::<JsonValue>::empty();
        assert(trees(e) =~= Seq::<JsonTree>::empty());
        assert(tree(items@[0]) == JsonTree::Array(Seq::<JsonTree>::empty()));
        assert(tree(items@[1]) == JsonTree::Array(Seq::<JsonTree>::empty()));
        assert(tree(items@[2]) == JsonTree::Array(Seq::<JsonTree>::empty()));
        assert(trees(items@) =~= seq![
            JsonTree::Array(Seq::empty()),
            JsonTree::Array(Seq::empty()),
            JsonTree::Array(Seq::empty()),
            mt,
        ]);
    }
    JsonValue::Array(items)
}


// ---------------------------------------------------------------------
// Machine equality

/// Whether two values have the same content.
fn json_eq(a: &JsonValue, b: &JsonValue) -> (r: bool)
    ensures
        r == (tree(*a) == tree(*b)),
    decreases a,
{
    match a {
        JsonValue::Null => match b {
            JsonValue::Null => true,
            _ => false,
        },
        JsonValue::Bool(x) => match b {
            JsonValue::Bool(y) => *x == *y,
            _ => false,
        },
        JsonValue::Number(x) => match b {
            JsonValue::Number(y) => match x {
                JsonNumber::Unsigned(p) => match y {
                    JsonNumber::Unsigned(q) => *p == *q,
                    _ => false,
                },
                JsonNumber::Negative(p) => match y {
                    JsonNumber::Negative(q) => *p == *q,
                    _ => false,
                },
                JsonNumber::Decimal(p) => match y {
                    JsonNumber::Decimal(q) => str_eq(p.as_str(), q.as_str()),
                    _ => false,
                },
            },
            _ => false,
        },
        JsonValue::Text(x) => match b {
            JsonValue::Text(y) => str_eq(x.as_str(), y.as_str()),
            _ => false,
        },
        JsonValue::Array(xs) => match b {
            JsonValue::Array(ys) => {
                assert(tree(*a) == JsonTree::Array(trees(xs@)));
                assert(tree(*b) == JsonTree::Array(trees(ys@)));
                if xs.len() != ys.len() {
                    assert(trees(xs@).len() != trees(ys@).len());
                    return false;
                }
                let mut i: usize = 0;
                while i < xs.len()
                    invariant
                        i <= xs@.len(),
                        xs@.len() == ys@.len(),
                        forall|k: int| 0 <= k < i ==> tree(#[trigger] xs@[k]) == tree(ys@[k]),
                        *a == JsonValue::Array(*xs),
                        *b == JsonValue::Array(*ys),
                        tree(*a) == JsonTree::Array(trees(xs@)),
                        tree(*b) == JsonTree::Array(trees(ys@)),
                    decreases xs@.len() - i,
                {
                    proof {
                        assert(decreases_to!(*a => *xs));
                        assert(decreases_to!(*xs => xs@));
                        assert(decreases_to!(xs@ => xs@[i as int]));
                    }
                    if !json_eq(&xs[i], &ys[i]) {
                        assert(trees(xs@)[i as int] != trees(ys@)[i as int]);
                        return false;
                    }
                    i = i + 1;
                }
                assert(trees(xs@) =~= trees(ys@));
                true
            },
            _ => false,
        },
        JsonValue::Object(xs) => match b {
            JsonValue::Object(ys) => {
                assert(tree(*a) == JsonTree::Object(field_trees(xs@)));
                assert(tree(*b) == JsonTree::Object(field_trees(ys@)));
                if xs.len() != ys.len() {
                    assert(field_trees(xs@).len() != field_trees(ys@).len());
                    return false;
                }
                let mut i: usize = 0;
                while i < xs.len()
                    invariant
                        i <= xs@.len(),
                        xs@.len() == ys@.len(),
                        forall|k: int| 0 <= k < i ==> field_trees(xs@)[k] == #[trigger] field_trees(ys@)[k],
                        *a == JsonValue::Object(*xs),
                        *b == JsonValue::Object(*ys),
                        tree(*a) == JsonTree::Object(field_trees(xs@)),
                        tree(*b) == JsonTree::Object(field_trees(ys@)),
                    decreases xs@.len() - i,
                {
                    if !str_eq(xs[i].0.as_str(), ys[i].0.as_str()) {
                        assert(field_trees(xs@)[i as int] != field_trees(ys@)[i as int]);
                        return false;
                    }
                    proof {
                        assert(decreases_to!(*a => *xs));
                        assert(decreases_to!(*xs => xs@));
                        assert(decreases_to!(xs@ => xs@[i as int]));
                        assert(decreases_to!(xs@[i as int] => xs@[i as int].1));
                    }
                    if !json_eq(&xs[i].1, &ys[i].1) {
                        assert(field_trees(xs@)[i as int] != field_trees(ys@)[i as int]);
                        return false;
                    }
                    i = i + 1;
                }
                assert(field_trees(xs@) =~= field_trees(ys@));
                true
            },
            _ => false,
        },
    }
}

/// The declared type that a data value inhabits.
pub open spec fn kind_of(v: DataValue) -> DataFieldType {
    match v {
        DataValue::Token(_) => DataFieldType::Token,
        DataValue::Count(_) => DataFieldType::Count,
        DataValue::Flag(_) => DataFieldType::Flag,
        DataValue::List(_) => DataFieldType::List,
        DataValue::Records(_) => DataFieldType::Records,
        DataValue::Record(_) => DataFieldType::Record,
    }
}

/// The declared types of a diagnostic's data members, in order.
pub open spec fn data_kinds(d: Seq<(Seq<char>, DataValue)>) -> Seq<DataFieldType> {
    d.map_values(|m: (Seq<char>, DataValue)| kind_of(m.1))
}

/// Two diagnostics are machine-equal when every machine-readable part
/// agrees: identity, code, severity, category, message id, symbol,
/// location, data (types and content), and provider metadata. Only the
/// rendered message may differ.
pub open spec fn machine_eq(a: DiagnosticView, b: DiagnosticView) -> bool {
    &&& a.id == b.id
    &&& a.code == b.code
    &&& a.severity == b.severity
    &&& a.category == b.category
    &&& a.message_id == b.message_id
    &&& a.symbol == b.symbol
    &&& a.path == b.path
    &&& a.range == b.range
    &&& data_kinds(a.data) == data_kinds(b.data)
    &&& data_object_tree(a.data) == data_object_tree(b.data)
    &&& metadata_tree(a.metadata) == metadata_tree(b.metadata)
}

fn opt_str_eq(a: Option<&str>, b: Option<&str>) -> (r: bool)
    ensures
        r == (match a { Some(x) => Some(x@), None => None::<Seq<char>> } == match b {
            Some(y) => Some(y@),
            None => None::<Seq<char>>,
        }),
{
    match a {
        Some(x) => match b {
            Some(y) => str_eq(x, y),
            None => false,
        },
        None => b.is_none(),
    }
}

fn range_eq(a: Option<Range>, b: Option<Range>) -> (r: bool)
    ensures
        r == (a == b),
{
    match a {
        Some(x) => match b {
            Some(y) => x == y,
            None => false,
        },
        None => b.is_none(),
    }
}

fn kinds_eq(a: &Vec<(String, DataValue)>, b: &Vec<(String, DataValue)>) -> (r: bool)
    ensures
        r == (data_kinds(data_view(a@)) == data_kinds(data_view(b@))),
{
    if a.len() != b.len() {
        assert(data_kinds(data_view(a@)).len() != data_kinds(data_view(b@)).len());
        return false;
    }
    let mut i: usize = 0;
    while i < a.len()
        invariant
            i <= a@.len(),
            a@.len() == b@.len(),
            forall|k: int| 0 <= k < i ==> data_kinds(data_view(a@))[k] == #[trigger] data_kinds(data_view(b@))[k],
        decreases a@.len() - i,
    {
        assert(data_kinds(data_view(a@))[i as int] == kind_of(a@[i as int].1));
        assert(data_kinds(data_view(b@))[i as int] == kind_of(b@[i as int].1));
        if a[i].1.field_type() != b[i].1.field_type() {
            return false;
        }
        i = i + 1;
    }
    assert(data_kinds(data_view(a@)) =~= data_kinds(data_view(b@)));
    true
}

/// Whether two diagnostics are machine-equal.
pub fn machine_equal(a: &Diagnostic, b: &Diagnostic) -> (r: bool)
    ensures
        r == machine_eq(a@, b@),
{
    str_eq(a.id(), b.id())
        && str_eq(a.code(), b.code())
        && a.severity() == b.severity()
        && a.category() == b.category()
        && str_eq(a.message_id(), b.message_id())
        && opt_str_eq(a.symbol(), b.symbol())
        && opt_str_eq(a.path(), b.path())
        && range_eq(a.range(), b.range())
        && kinds_eq(a.data(), b.data())
        && json_eq(&data_object_json(a.data()), &data_object_json(b.data()))
        && json_eq(&metadata_json(a.metadata()), &metadata_json(b.metadata()))
}

// ---------------------------------------------------------------------
// The total order

/// An optional text as a key component; absence sorts as the empty text.
pub open spec fn opt_atom(t: Option<Seq<char>>) -> Atom {
    match t {
        Some(x) => Atom::Txt(x),
        None => Atom::Txt(Seq::empty()),
    }
}

/// The span components: start and end bytes, then start line and
/// column, then end line and column; zeros without a span.
pub open spec fn span_atoms(r: Option<Range>) -> Seq<Atom> {
    match r {
        Some(r) => seq![
            Atom::Num(r.start.byte as int),
            Atom::Num(r.end.byte as int),
            Atom::Num(r.start.line as int),
            Atom::Num(r.start.column as int),
            Atom::Num(r.end.line as int),
            Atom::Num(r.end.column as int),
        ],
        None => seq![Atom::Num(0), Atom::Num(0), Atom::Num(0), Atom::Num(0), Atom::Num(0), Atom::Num(0)],
    }
}

/// The weight of a severity: info, warning, error.
pub open spec fn severity_rank(s: Severity) -> int {
    match s {
        Severity::Info => 0,
        Severity::Warning => 1,
        Severity::Error => 2,
    }
}

/// The total order of a result set: global diagnostics before located
/// ones, then logical path, span bytes, lines and columns, code, rule
/// id, symbol, and severity rank; the rendered data object and then the
/// rendered nested payload break the remaining ties.
pub open spec fn order_key(d: DiagnosticView) -> Seq<Atom> {
    seq![Atom::Num(if d.path is Some || d.range is Some { 1 } else { 0 }), opt_atom(d.path)]
        + span_atoms(d.range)
        + seq![
            Atom::Txt(d.code),
            Atom::Txt(d.id),
            opt_atom(d.symbol),
            Atom::Num(severity_rank(d.severity)),
            Atom::Txt(rendered_json(data_object_tree(d.data))),
            Atom::Txt(rendered_json(payload_tree(d.metadata))),
        ]
}

fn opt_text(t: Option<&str>) -> (r: String)
    ensures
        Atom::Txt(r@) == opt_atom(match t { Some(x) => Some(x@), None => None }),
{
    match t {
        Some(x) => x.to_owned(),
        None => String::new(),
    }
}

/// The sort key of one diagnostic.
fn order_key_parts(d: &Diagnostic) -> (r: Vec<KeyPart>)
    ensures
        part_atoms(r@) == order_key(d@),
{
    let path = d.path();
    let range = d.range();
    let mut k: Vec<KeyPart> = Vec::new();
    let located: u64 = if path.is_some() || range.is_some() { 1 } else { 0 };
    k.push(KeyPart::Num(located));
    k.push(KeyPart::Txt(opt_text(path)));
    match range {
        Some(r) => {
            k.push(KeyPart::Num(r.start.byte as u64));
            k.push(KeyPart::Num(r.end.byte as u64));
            k.push(KeyPart::Num(r.start.line as u64));
            k.push(KeyPart::Num(r.start.column as u64));
            k.push(KeyPart::Num(r.end.line as u64));
            k.push(KeyPart::Num(r.end.column as u64));
        },
        None => {
            k.push(KeyPart::Num(0));
            k.push(KeyPart::Num(0));
            k.push(KeyPart::Num(0));
            k.push(KeyPart::Num(0));
            k.push(KeyPart::Num(0));
            k.push(KeyPart::Num(0));
        },
    }
    k.push(KeyPart::Txt(d.code().to_owned()));
    k.push(KeyPart::Txt(d.id().to_owned()));
    k.push(KeyPart::Txt(opt_text(d.symbol())));
    let rank: u64 = match d.severity() {
        Severity::Info => 0,
        Severity::Warning => 1,
        Severity::Error => 2,
    };
    k.push(KeyPart::Num(rank));
    k.push(KeyPart::Txt(render_json(&data_object_json(d.data()))));
    k.push(KeyPart::Txt(render_json(&payload_json(d.metadata()))));
    assert(part_atoms(k@) =~= order_key(d@));
    k
}

/// The order of list members: tokens by their bytes, then counts by
/// their decimal spelling, with `false` sorting among the counts as an
/// empty spelling and `true` after them.
pub open spec fn scalar_key(s: Scalar) -> Seq<Atom> {
    match s {
        Scalar::Token(t) => seq![Atom::Num(0), Atom::Txt(t@)],
        Scalar::Count(n) => seq![Atom::Num(1), Atom::Txt(decimal(n as nat))],
        Scalar::Flag(b) => seq![Atom::Num(if b { 2 } else { 1 }), Atom::Txt(Seq::empty())],
    }
}

fn scalar_key_parts(s: &Scalar) -> (r: Vec<KeyPart>)
    ensures
        part_atoms(r@) == scalar_key(*s),
{
    let mut k: Vec<KeyPart> = Vec::new();
    match s {
        Scalar::Token(t) => {
            k.push(KeyPart::Num(0));
            k.push(KeyPart::Txt(t.as_str().to_owned()));
        },
        Scalar::Count(n) => {
            let mut t = String::new();
            push_decimal(&mut t, *n);
            k.push(KeyPart::Num(1));
            k.push(KeyPart::Txt(t));
        },
        Scalar::Flag(b) => {
            k.push(KeyPart::Num(if *b { 2 } else { 1 }));
            k.push(KeyPart::Txt(String::new()));
        },
    }
    assert(part_atoms(k@) =~= scalar_key(*s));
    k
}


// ---------------------------------------------------------------------
// Sorting by key

/// The members of keyed pairs, in order.
pub open spec fn items_of<T>(ks: Seq<Keyed<T>>) -> Seq<T> {
    ks.map_values(|k: Keyed<T>| k.item)
}

/// Every pair carries the key `f` gives its member.
pub open spec fn keyed_by<T>(ks: Seq<Keyed<T>>, f: spec_fn(T) -> Seq<Atom>) -> bool {
    forall|k: int| 0 <= k < ks.len() ==> part_atoms(#[trigger] ks[k].key@) == f(ks[k].item)
}

/// Members in non-decreasing order of the key `f` gives them.
pub open spec fn sorted_by<T>(s: Seq<T>, f: spec_fn(T) -> Seq<Atom>) -> bool {
    forall|i: int, j: int| 0 <= i < j < s.len() ==> atoms_le(f(#[trigger] s[i]), f(#[trigger] s[j]))
}

/// Permuting a list permutes the images of its members.
pub proof fn lemma_map_permutation<A, B>(a: Seq<A>, b: Seq<A>, f: spec_fn(A) -> B)
    requires
        a.to_multiset() == b.to_multiset(),
    ensures
        a.map_values(f).to_multiset() == b.map_values(f).to_multiset(),
    decreases a.len(),
{
    if a.len() == 0 {
        assert(b.to_multiset().len() == b.len());
        assert(a.map_values(f) =~= b.map_values(f));
    } else {
        let x = a.last();
        let a1 = a.drop_last();
        assert(a =~= a1.push(x));
        assert(b.to_multiset().count(x) > 0);
        assert(b.contains(x));
        let i = choose|i: int| 0 <= i < b.len() && b[i] == x;
        let b1 = b.remove(i);
        assert(a1.to_multiset() =~= b1.to_multiset()) by {
            assert(a.to_multiset() =~= a1.to_multiset().insert(x));
            assert(b1.to_multiset() =~= b.to_multiset().remove(x));
        }
        lemma_map_permutation(a1, b1, f);
        let fa = a.map_values(f);
        let fb = b.map_values(f);
        assert(fa =~= a1.map_values(f).push(f(x)));
        assert(b1.map_values(f) =~= fb.remove(i));
        assert(fb[i] == f(x));
        assert(b1.map_values(f).to_multiset() =~= fb.to_multiset().remove(f(x)));
        assert(fb.to_multiset().count(f(x)) > 0);
        assert(fb.to_multiset() =~= b1.map_values(f).to_multiset().insert(f(x)));
        assert(fa.to_multiset() =~= a1.map_values(f).to_multiset().insert(f(x)));
    }
}

/// Sort keyed members by their keys and hand the members out.
pub(crate) fn sort_keyed<T>(ks: Vec<Keyed<T>>, Ghost(f): Ghost<spec_fn(T) -> Seq<Atom>>) -> (r: Vec<T>)
    requires
        keyed_by(ks@, f),
    ensures
        r@.to_multiset() == items_of(ks@).to_multiset(),
        sorted_by(r@, f),
{
    let ghost orig = ks@;
    let sorted_keyed = sort(ks);
    let ghost sk = sorted_keyed@;
    proof {
        assert forall|k: int| 0 <= k < sk.len() implies part_atoms(#[trigger] sk[k].key@) == f(sk[k].item) by {
            assert(sk.contains(sk[k]));
            assert(orig.to_multiset().count(sk[k]) > 0);
            assert(orig.contains(sk[k]));
            let m = choose|m: int| 0 <= m < orig.len() && orig[m] == sk[k];
            assert(part_atoms(orig[m].key@) == f(orig[m].item));
        }
        lemma_map_permutation(sk, orig, |k: Keyed<T>| k.item);
    }
    let mut src = sorted_keyed;
    let mut out: Vec<T> = Vec::new();
    let ghost n = sk.len();
    assert(items_of(sk).skip(0) =~= items_of(sk));
    while src.len() > 0
        invariant
            n == sk.len(),
            out@.len() + src@.len() == n,
            out@ =~= items_of(sk).take(out@.len() as int),
            items_of(src@) =~= items_of(sk).skip(out@.len() as int),
        decreases src@.len(),
    {
        let ghost before = src@;
        let k = src.remove(0);
        proof {
            assert(items_of(before)[0] == k.item);
            assert(items_of(src@) =~= items_of(before).drop_first());
        }
        out.push(k.item);
        assert(out@ =~= items_of(sk).take(out@.len() as int));
    }
    proof {
        assert(items_of(sk).take(n as int) =~= items_of(sk));
        assert forall|i: int, j: int| 0 <= i < j < out@.len() implies atoms_le(f(#[trigger] out@[i]), f(#[trigger] out@[j])) by {
            assert(sk[i].spec_le(&sk[j]));
            assert(out@[i] == sk[i].item);
            assert(out@[j] == sk[j].item);
        }
    }
    out
}

// ---------------------------------------------------------------------
// Normalizing members

/// List members in non-decreasing order of their scalar keys.
pub open spec fn scalars_sorted(s: Seq<Scalar>) -> bool {
    sorted_by(s, |x: Scalar| scalar_key(x))
}

/// Sort the members of one list.
fn sort_scalars(ss: Vec<Scalar>) -> (r: Vec<Scalar>)
    ensures
        r@.to_multiset() == ss@.to_multiset(),
        scalars_sorted(r@),
{
    let ghost orig = ss@;
    let ghost f = |x: Scalar| scalar_key(x);
    let mut rest = ss;
    let mut keyed: Vec<Keyed<Scalar>> = Vec::new();
    while rest.len() > 0
        invariant
            items_of(keyed@) + rest@ == orig,
            keyed_by(keyed@, f),
            f == |x: Scalar| scalar_key(x),
        decreases rest@.len(),
    {
        let ghost before = rest@;
        let x = rest.remove(0);
        let key = scalar_key_parts(&x);
        keyed.push(Keyed { key, item: x });
        assert(items_of(keyed@) + rest@ =~= orig) by {
            assert(items_of(keyed@) =~= items_of(keyed@.drop_last()).push(x));
            assert(before =~= seq![x] + rest@);
        }
    }
    assert(items_of(keyed@) =~= orig);
    sort_keyed(keyed, Ghost(f))
}

/// One data member after normalization: a list holds the same members
/// sorted by their scalar keys; any other value is unchanged.
pub open spec fn member_normalized(before: (Seq<char>, DataValue), after: (Seq<char>, DataValue)) -> bool {
    &&& after.0 == before.0
    &&& match before.1 {
        DataValue::List(xs) => match after.1 {
            DataValue::List(ys) => ys@.to_multiset() == xs@.to_multiset() && scalars_sorted(ys@),
            _ => false,
        },
        _ => after.1 == before.1,
    }
}

/// A data object after normalization, member by member.
pub open spec fn data_normalized(before: Seq<(Seq<char>, DataValue)>, after: Seq<(Seq<char>, DataValue)>) -> bool {
    &&& after.len() == before.len()
    &&& forall|i: int| 0 <= i < before.len() ==> member_normalized(#[trigger] before[i], after[i])
}

/// A diagnostic after normalization: its nested lists are sorted and
/// nothing else changes.
pub open spec fn normalized(before: DiagnosticView, after: DiagnosticView) -> bool {
    &&& after == (DiagnosticView { data: after.data, ..before })
    &&& data_normalized(before.data, after.data)
}

fn normalize_data(d: Vec<(String, DataValue)>) -> (r: Vec<(String, DataValue)>)
    ensures
        data_normalized(data_view(d@), data_view(r@)),
{
    let ghost orig = d@;
    let mut rest = d;
    let mut out: Vec<(String, DataValue)> = Vec::new();
    assert(orig.skip(0) =~= orig);
    while rest.len() > 0
        invariant
            out@.len() + rest@.len() == orig.len(),
            rest@ =~= orig.skip(out@.len() as int),
            forall|j: int| 0 <= j < out@.len() ==> member_normalized(#[trigger] data_view(orig)[j], data_view(out@)[j]),
        decreases rest@.len(),
    {
        let ghost i = out@.len() as int;
        let ghost before = rest@;
        let ghost old_out = out@;
        let (k, v) = rest.remove(0);
        assert(orig[i] == before[0]);
        let v2 = match v {
            DataValue::List(xs) => DataValue::List(sort_scalars(xs)),
            other => other,
        };
        out.push((k, v2));
        proof {
            assert(rest@ =~= orig.skip(out@.len() as int));
            assert(data_view(orig)[i] == (orig[i].0@, orig[i].1));
            assert(data_view(out@)[i] == (out@[i].0@, out@[i].1));
            assert forall|j: int| 0 <= j < out@.len() implies member_normalized(#[trigger] data_view(orig)[j], data_view(out@)[j]) by {
                if j < i {
                    assert(out@[j] == old_out[j]);
                    assert(data_view(out@)[j] == data_view(old_out)[j]);
                }
            }
        }
    }
    out
}


fn normalize_item(d: Diagnostic) -> (r: Diagnostic)
    ensures
        normalized(d@, r@),
{
    let mut d = d;
    let mut data: Vec<(String, DataValue)> = Vec::new();
    d.swap_data(&mut data);
    let mut nd = normalize_data(data);
    d.swap_data(&mut nd);
    d
}

// ---------------------------------------------------------------------
// Result sets

/// The most diagnostics one result set may hold.
pub const DIAGNOSTICS_PER_RESULT: usize = 256;

/// `x` is the normalized form of some input diagnostic.
pub open spec fn from_input(input: Seq<DiagnosticView>, x: DiagnosticView) -> bool {
    exists|k: int| 0 <= k < input.len() && #[trigger] normalized(input[k], x)
}

/// The normalized form of `x` is machine-equal to some member of `out`.
pub open spec fn kept(out: Seq<DiagnosticView>, x: DiagnosticView) -> bool {
    exists|i: int, n: DiagnosticView| #![trigger out[i], normalized(x, n)]
        0 <= i < out.len() && normalized(x, n) && machine_eq(n, out[i])
}

/// `out` is the normalized result set of `input`: members in the total
/// order, no two machine-equal, each the normalized form of an input
/// diagnostic, and each input diagnostic represented up to machine
/// equality.
pub open spec fn normalized_set(input: Seq<DiagnosticView>, out: Seq<DiagnosticView>) -> bool {
    &&& forall|i: int, j: int| 0 <= i < j < out.len() ==> atoms_le(order_key(#[trigger] out[i]), order_key(#[trigger] out[j]))
    &&& forall|i: int, j: int| 0 <= i < out.len() && 0 <= j < out.len() && i != j ==> !machine_eq(#[trigger] out[i], #[trigger] out[j])
    &&& forall|i: int| 0 <= i < out.len() ==> from_input(input, #[trigger] out[i])
    &&& forall|k: int| 0 <= k < input.len() ==> kept(out, #[trigger] input[k])
}

impl DiagnosticSet {
    /// Validate, normalize, deduplicate, and sort one result set: at
    /// most [`DIAGNOSTICS_PER_RESULT`] diagnostics, each registered,
    /// active, and allowed under `status`; nested lists sorted, machine
    /// duplicates removed, members in the total order of [`order_key`].
    pub fn try_from_unsorted(diagnostics: Vec<Diagnostic>, status: Status) -> (r: Result<DiagnosticSet, SetError>)
        ensures
            diagnostics@.len() > DIAGNOSTICS_PER_RESULT ==> r matches Err(SetError::OverLimit),
            diagnostics@.len() <= DIAGNOSTICS_PER_RESULT ==> (r is Ok <==> DiagnosticSet::all_allowed(views(diagnostics@), status)),
            r matches Ok(s) ==> normalized_set(views(diagnostics@), s@),
    {
        if diagnostics.len() > DIAGNOSTICS_PER_RESULT {
            return Err(SetError::OverLimit);
        }
        let ghost input = views(diagnostics@);
        let checked = match DiagnosticSet::of_list(diagnostics, status) {
            Ok(set) => set,
            Err(e) => return Err(e),
        };
        let items = checked.into_items();
        let ghost n = items@.len();
        let ghost of = |d: Diagnostic| order_key(d@);
        // Normalize each member and key it.
        let mut rest = items;
        let mut keyed: Vec<Keyed<Diagnostic>> = Vec::new();
        assert(views(rest@) =~= input.skip(0));
        while rest.len() > 0
            invariant
                keyed@.len() + rest@.len() == n,
                input.len() == n,
                views(rest@) =~= input.skip(keyed@.len() as int),
                forall|j: int| 0 <= j < keyed@.len() ==> normalized(input[j], #[trigger] keyed@[j].item@),
                keyed_by(keyed@, of),
                of == |d: Diagnostic| order_key(d@),
            decreases rest@.len(),
        {
            let ghost before = rest@;
            let ghost j = keyed@.len() as int;
            let x = rest.remove(0);
            assert(views(before)[0] == x@);
            let d = normalize_item(x);
            let key = order_key_parts(&d);
            keyed.push(Keyed { key, item: d });
            assert(views(rest@) =~= views(before).drop_first());
        }
        let ghost normal = items_of(keyed@);
        let srt = sort_keyed(keyed, Ghost(of));
        let ghost ss = srt@;
        proof {
            assert forall|q: int| 0 <= q < ss.len() implies from_input(input, #[trigger] ss[q]@) by {
                assert(ss.contains(ss[q]));
                assert(normal.to_multiset().count(ss[q]) > 0);
                assert(normal.contains(ss[q]));
                let m = choose|m: int| 0 <= m < normal.len() && normal[m] == ss[q];
                assert(normalized(input[m], normal[m]@));
            }
        }
        // Keep the first of each class of machine-equal members.
        let mut src = srt;
        let mut out: Vec<Diagnostic> = Vec::new();
        let ghost total = ss.len();
        assert(ss.skip(0) =~= ss);
        let mut p: usize = 0;
        let count = src.len();
        while src.len() > 0
            invariant
                total == ss.len(),
                total == count,
                p + src@.len() == total,
                src@ =~= ss.skip(p as int),
                sorted_by(ss, of),
                of == |d: Diagnostic| order_key(d@),
                forall|q: int| 0 <= q < ss.len() ==> from_input(input, #[trigger] ss[q]@),
                forall|i: int, j: int| 0 <= i < j < out@.len() ==> atoms_le(order_key(#[trigger] out@[i]@), order_key(#[trigger] out@[j]@)),
                forall|i: int, q: int| 0 <= i < out@.len() && p <= q < total ==> atoms_le(order_key(#[trigger] out@[i]@), order_key(#[trigger] ss[q]@)),
                forall|i: int, j: int| 0 <= i < out@.len() && 0 <= j < out@.len() && i != j ==> !machine_eq(#[trigger] out@[i]@, #[trigger] out@[j]@),
                forall|i: int| 0 <= i < out@.len() ==> from_input(input, #[trigger] out@[i]@),
                forall|q: int| 0 <= q < p ==> exists|i: int| 0 <= i < out@.len() && machine_eq(#[trigger] ss[q]@, #[trigger] out@[i]@),
            decreases src@.len(),
        {
            let ghost before = src@;
            let x = src.remove(0);
            assert(x == ss[p as int]);
            assert(src@ =~= ss.skip(p + 1));
            let mut dup = false;
            let mut m: usize = 0;
            while m < out.len()
                invariant
                    m <= out@.len(),
                    dup ==> exists|t: int| 0 <= t < out@.len() && machine_eq(x@, #[trigger] out@[t]@),
                    !dup ==> forall|t: int| 0 <= t < m ==> !machine_eq(x@, #[trigger] out@[t]@),
                decreases out@.len() - m,
            {
                if machine_equal(&x, &out[m]) {
                    dup = true;
                }
                m = m + 1;
            }
            let ghost old_out = out@;
            if !dup {
                proof {
                    assert forall|q: int| p < q < total implies atoms_le(order_key(x@), order_key(#[trigger] ss[q]@)) by {
                        assert(atoms_le(of(ss[p as int]), of(ss[q])));
                    }
                }
                out.push(x);
                proof {
                    assert forall|i: int, j: int| 0 <= i < j < out@.len() implies atoms_le(order_key(#[trigger] out@[i]@), order_key(#[trigger] out@[j]@)) by {
                        if j < old_out.len() {
                            assert(out@[i] == old_out[i] && out@[j] == old_out[j]);
                        } else {
                            assert(out@[i] == old_out[i]);
                            assert(atoms_le(order_key(old_out[i]@), order_key(ss[p as int]@)));
                        }
                    }
                    assert forall|i: int, q: int| 0 <= i < out@.len() && p + 1 <= q < total implies atoms_le(order_key(#[trigger] out@[i]@), order_key(#[trigger] ss[q]@)) by {
                        if i < old_out.len() {
                            assert(out@[i] == old_out[i]);
                        }
                    }
                    assert forall|i: int, j: int| 0 <= i < out@.len() && 0 <= j < out@.len() && i != j implies !machine_eq(#[trigger] out@[i]@, #[trigger] out@[j]@) by {
                        if i < old_out.len() && j < old_out.len() {
                            assert(out@[i] == old_out[i] && out@[j] == old_out[j]);
                        } else if i < old_out.len() {
                            assert(out@[i] == old_out[i]);
                            assert(!machine_eq(x@, old_out[i]@));
                        } else {
                            assert(out@[j] == old_out[j]);
                            assert(!machine_eq(x@, old_out[j]@));
                        }
                    }
                    assert forall|i: int| 0 <= i < out@.len() implies from_input(input, #[trigger] out@[i]@) by {
                        if i < old_out.len() {
                            assert(out@[i] == old_out[i]);
                        }
                    }
                    assert forall|q: int| 0 <= q < p + 1 implies exists|i: int| 0 <= i < out@.len() && machine_eq(#[trigger] ss[q]@, #[trigger] out@[i]@) by {
                        if q < p {
                            let i = choose|i: int| 0 <= i < old_out.len() && machine_eq(ss[q]@, old_out[i]@);
                            assert(out@[i] == old_out[i]);
                        } else {
                            assert(out@[old_out.len() as int] == x);
                        }
                    }
                }
            } else {
                proof {
                    assert forall|q: int| 0 <= q < p + 1 implies exists|i: int| 0 <= i < out@.len() && machine_eq(#[trigger] ss[q]@, #[trigger] out@[i]@) by {
                        if q == p {
                            let t = choose|t: int| 0 <= t < out@.len() && machine_eq(x@, out@[t]@);
                            assert(machine_eq(ss[q]@, out@[t]@));
                        }
                    }
                }
            }
            p = p + 1;
        }
        let ghost ov = views(out@);
        proof {
            assert forall|i: int| 0 <= i < ov.len() implies #[trigger] ov[i] == out@[i]@ by {}
            assert forall|k: int| 0 <= k < ov.len() implies {
                let row = crate::diagnostics::registry::find_rule(crate::diagnostics::registry::rule_table(), #[trigger] ov[k].id);
                row is Some && row.unwrap().lifecycle == crate::diagnostics::registry::Lifecycle::Active && row.unwrap().statuses.contains(status)
            } by {
                assert(from_input(input, out@[k]@));
                let j = choose|j: int| 0 <= j < input.len() && normalized(input[j], out@[k]@);
                assert(input[j].id == ov[k].id);
            }
            assert forall|k: int| 0 <= k < input.len() implies kept(ov, #[trigger] input[k]) by {
                assert(normalized(input[k], normal[k]@));
                assert(normal.contains(normal[k]));
                assert(ss.to_multiset().count(normal[k]) > 0);
                assert(ss.contains(normal[k]));
                let q = choose|q: int| 0 <= q < ss.len() && ss[q] == normal[k];
                let i = choose|i: int| 0 <= i < out@.len() && machine_eq(ss[q]@, out@[i]@);
                assert(machine_eq(normal[k]@, ov[i]));
            }
        }
        DiagnosticSet::of_list(out, status)
    }
}


// ---------------------------------------------------------------------
// Normalizing does not depend on input order

proof fn lemma_decimal_nonempty(n: nat)
    ensures
        decimal(n).len() >= 1,
    decreases n,
{
    if n >= 10 {
        lemma_decimal_nonempty(n / 10);
    }
}

proof fn lemma_digit_injective(a: nat, b: nat)
    requires
        a < 10,
        b < 10,
        crate::text::digit_char(a) == crate::text::digit_char(b),
    ensures
        a == b,
{
}

proof fn lemma_decimal_injective(n: nat, m: nat)
    requires
        decimal(n) == decimal(m),
    ensures
        n == m,
    decreases n,
{
    lemma_decimal_nonempty(n / 10);
    lemma_decimal_nonempty(m / 10);
    let a = decimal(n);
    let b = decimal(m);
    if n < 10 && m < 10 {
        assert(a == seq![crate::text::digit_char(n)]);
        assert(b == seq![crate::text::digit_char(m)]);
        assert(a[0] == crate::text::digit_char(n));
        assert(b[0] == crate::text::digit_char(m));
        lemma_digit_injective(n, m);
    } else if n < 10 {
        assert(b == decimal(m / 10) + seq![crate::text::digit_char(m % 10)]);
        assert(b.len() >= 2);
    } else if m < 10 {
        assert(a == decimal(n / 10) + seq![crate::text::digit_char(n % 10)]);
        assert(a.len() >= 2);
    } else {
        assert(a == decimal(n / 10) + seq![crate::text::digit_char(n % 10)]);
        assert(b == decimal(m / 10) + seq![crate::text::digit_char(m % 10)]);
        assert(a.last() == crate::text::digit_char(n % 10));
        assert(b.last() == crate::text::digit_char(m % 10));
        lemma_digit_injective(n % 10, m % 10);
        assert(a.drop_last() =~= decimal(n / 10));
        assert(b.drop_last() =~= decimal(m / 10));
        lemma_decimal_injective(n / 10, m / 10);
    }
}

/// Scalars with the same key have the same content.
proof fn lemma_scalar_key_content(x: Scalar, y: Scalar)
    requires
        scalar_key(x) == scalar_key(y),
    ensures
        scalar_tree(x) == scalar_tree(y),
{
    let kx = scalar_key(x);
    let ky = scalar_key(y);
    assert(kx[0] == ky[0] && kx[1] == ky[1]);
    match x {
        Scalar::Count(n) => {
            lemma_decimal_nonempty(n as nat);
            match y {
                Scalar::Count(m) => { lemma_decimal_injective(n as nat, m as nat); },
                _ => {},
            }
        },
        Scalar::Flag(_) => {
            match y {
                Scalar::Count(m) => { lemma_decimal_nonempty(m as nat); },
                _ => {},
            }
        },
        _ => {},
    }
}

/// Two lists of keys in non-decreasing order holding the same keys are
/// the same list.
proof fn lemma_sorted_keys_unique(a: Seq<Seq<Atom>>, b: Seq<Seq<Atom>>)
    requires
        a.to_multiset() == b.to_multiset(),
        forall|i: int, j: int| 0 <= i < j < a.len() ==> atoms_le(#[trigger] a[i], #[trigger] a[j]),
        forall|i: int, j: int| 0 <= i < j < b.len() ==> atoms_le(#[trigger] b[i], #[trigger] b[j]),
    ensures
        a == b,
    decreases a.len(),
{
    assert(a.len() == a.to_multiset().len());
    assert(b.len() == b.to_multiset().len());
    if a.len() == 0 {
        assert(a =~= b);
    } else {
        assert(a.contains(a[0]));
        assert(b.to_multiset().count(a[0]) > 0);
        let m = choose|m: int| 0 <= m < b.len() && b[m] == a[0];
        assert(b.contains(b[0]));
        assert(a.to_multiset().count(b[0]) > 0);
        let n = choose|n: int| 0 <= n < a.len() && a[n] == b[0];
        lemma_atoms_le_order(a[0], b[0], a[0]);
        lemma_atoms_le_order(a[0], a[0], a[0]);
        lemma_atoms_le_order(b[0], b[0], b[0]);
        if m > 0 {
            assert(atoms_le(b[0], b[m]));
        }
        if n > 0 {
            assert(atoms_le(a[0], a[n]));
        }
        assert(a[0] == b[0]);
        assert(a =~= seq![a[0]] + a.drop_first());
        assert(b =~= seq![b[0]] + b.drop_first());
        assert(a.drop_first() =~= a.remove(0));
        assert(b.drop_first() =~= b.remove(0));
        assert(a.remove(0).to_multiset() =~= a.to_multiset().remove(a[0]));
        assert(b.remove(0).to_multiset() =~= b.to_multiset().remove(b[0]));
        assert forall|i: int, j: int| 0 <= i < j < a.drop_first().len() implies atoms_le(#[trigger] a.drop_first()[i], #[trigger] a.drop_first()[j]) by {
            assert(atoms_le(a[i + 1], a[j + 1]));
        }
        assert forall|i: int, j: int| 0 <= i < j < b.drop_first().len() implies atoms_le(#[trigger] b.drop_first()[i], #[trigger] b.drop_first()[j]) by {
            assert(atoms_le(b[i + 1], b[j + 1]));
        }
        lemma_sorted_keys_unique(a.drop_first(), b.drop_first());
    }
}

/// Two sorted arrangements of one list have the same content, member by
/// member.
proof fn lemma_sorted_scalars_content(ys1: Seq<Scalar>, ys2: Seq<Scalar>)
    requires
        ys1.to_multiset() == ys2.to_multiset(),
        scalars_sorted(ys1),
        scalars_sorted(ys2),
    ensures
        ys1.map_values(|x: Scalar| scalar_tree(x)) == ys2.map_values(|x: Scalar| scalar_tree(x)),
{
    let f = |x: Scalar| scalar_key(x);
    let k1 = ys1.map_values(f);
    let k2 = ys2.map_values(f);
    lemma_map_permutation(ys1, ys2, f);
    assert forall|i: int, j: int| 0 <= i < j < k1.len() implies atoms_le(#[trigger] k1[i], #[trigger] k1[j]) by {
        assert(atoms_le(f(ys1[i]), f(ys1[j])));
    }
    assert forall|i: int, j: int| 0 <= i < j < k2.len() implies atoms_le(#[trigger] k2[i], #[trigger] k2[j]) by {
        assert(atoms_le(f(ys2[i]), f(ys2[j])));
    }
    lemma_sorted_keys_unique(k1, k2);
    assert forall|i: int| 0 <= i < ys1.len() implies #[trigger] scalar_tree(ys1[i]) == scalar_tree(ys2[i]) by {
        assert(k1[i] == k2[i]);
        lemma_scalar_key_content(ys1[i], ys2[i]);
    }
    assert(ys1.map_values(|x: Scalar| scalar_tree(x)) =~= ys2.map_values(|x: Scalar| scalar_tree(x)));
}

/// Two normalized forms of one diagnostic are machine-equal and sort at
/// the same place.
pub proof fn lemma_normalized_forms_agree(x: DiagnosticView, n1: DiagnosticView, n2: DiagnosticView)
    requires
        normalized(x, n1),
        normalized(x, n2),
    ensures
        machine_eq(n1, n2),
        order_key(n1) == order_key(n2),
{
    let d = x.data;
    assert(n1.data.len() == d.len() && n2.data.len() == d.len());
    let f1 = n1.data.map_values(|m: (Seq<char>, DataValue)| (m.0, data_tree(m.1)));
    let f2 = n2.data.map_values(|m: (Seq<char>, DataValue)| (m.0, data_tree(m.1)));
    assert forall|i: int| 0 <= i < d.len() implies
        #[trigger] data_kinds(n1.data)[i] == data_kinds(n2.data)[i] && f1[i] == f2[i] by {
        assert(member_normalized(d[i], n1.data[i]));
        assert(member_normalized(d[i], n2.data[i]));
        match d[i].1 {
            DataValue::List(xs) => {
                let ys1 = n1.data[i].1->List_0@;
                let ys2 = n2.data[i].1->List_0@;
                lemma_sorted_scalars_content(ys1, ys2);
                assert(data_tree(n1.data[i].1) == data_tree(n2.data[i].1));
            },
            _ => {},
        }
    }
    assert(data_kinds(n1.data) =~= data_kinds(n2.data));
    assert forall|i: int| 0 <= i < f1.len() implies #[trigger] f1[i] == f2[i] by {
        assert(data_kinds(n1.data)[i] == data_kinds(n2.data)[i]);
    }
    assert(f1 =~= f2);
    assert(data_object_tree(n1.data) == data_object_tree(n2.data));
}

/// Machine-equal diagnostics sort at the same place.
pub proof fn lemma_machine_eq_same_key(n1: DiagnosticView, n2: DiagnosticView)
    requires
        machine_eq(n1, n2),
    ensures
        order_key(n1) == order_key(n2),
{
}

/// Members of the input whose normalized forms sort at the same place
/// are machine-equal: the input holds no two diagnostics that the total
/// order cannot tell apart while they differ in what machine equality
/// compares.
pub open spec fn keys_separate(input: Seq<DiagnosticView>) -> bool {
    forall|a: int, b: int, n1: DiagnosticView, n2: DiagnosticView|
        #![trigger normalized(input[a], n1), normalized(input[b], n2)]
        0 <= a < input.len() && 0 <= b < input.len() && normalized(input[a], n1) && normalized(input[b], n2)
            && order_key(n1) == order_key(n2) ==> machine_eq(n1, n2)
}

proof fn lemma_out_strict(input: Seq<DiagnosticView>, out: Seq<DiagnosticView>)
    requires
        normalized_set(input, out),
        keys_separate(input),
    ensures
        forall|i: int, j: int| 0 <= i < j < out.len() ==> atoms_lt(order_key(#[trigger] out[i]), order_key(#[trigger] out[j])),
{
    assert forall|i: int, j: int| 0 <= i < j < out.len() implies atoms_lt(order_key(#[trigger] out[i]), order_key(#[trigger] out[j])) by {
        assert(atoms_le(order_key(out[i]), order_key(out[j])));
        lemma_atoms_le_order(order_key(out[i]), order_key(out[j]), order_key(out[i]));
        lemma_atoms_lt_total(order_key(out[i]), order_key(out[j]));
        if order_key(out[i]) == order_key(out[j]) {
            assert(from_input(input, out[i]));
            assert(from_input(input, out[j]));
            let ka = choose|k: int| 0 <= k < input.len() && #[trigger] normalized(input[k], out[i]);
            let kb = choose|k: int| 0 <= k < input.len() && #[trigger] normalized(input[k], out[j]);
            assert(machine_eq(out[i], out[j]));
            assert(!machine_eq(out[i], out[j]));
        }
    }
}

proof fn lemma_member_covered(a: Seq<DiagnosticView>, b: Seq<DiagnosticView>, x: DiagnosticView,
    out_b: Seq<DiagnosticView>) -> (j: int)
    requires
        a.to_multiset() == b.to_multiset(),
        from_input(a, x),
        normalized_set(b, out_b),
    ensures
        0 <= j < out_b.len(),
        machine_eq(x, out_b[j]),
{
    let k = choose|k: int| 0 <= k < a.len() && #[trigger] normalized(a[k], x);
    assert(a.contains(a[k]));
    assert(a.to_multiset().count(a[k]) > 0);
    assert(b.to_multiset().count(a[k]) > 0);
    assert(b.contains(a[k]));
    let kb = choose|kb: int| 0 <= kb < b.len() && b[kb] == a[k];
    assert(kept(out_b, b[kb]));
    let (j, n) = choose|j: int, n: DiagnosticView| #![trigger out_b[j], normalized(b[kb], n)]
        0 <= j < out_b.len() && normalized(b[kb], n) && machine_eq(n, out_b[j]);
    lemma_normalized_forms_agree(a[k], x, n);
    j
}

/// `x` is machine-equal to some member of `out`.
pub open spec fn covered_by(x: DiagnosticView, out: Seq<DiagnosticView>) -> bool {
    exists|j: int| 0 <= j < out.len() && machine_eq(x, #[trigger] out[j])
}

/// Each member of one normalized set of `a` is machine-equal to some
/// member of a normalized set of any rearrangement of `a`.
proof fn lemma_out_covered(a: Seq<DiagnosticView>, b: Seq<DiagnosticView>, out_a: Seq<DiagnosticView>,
    out_b: Seq<DiagnosticView>)
    requires
        a.to_multiset() == b.to_multiset(),
        normalized_set(a, out_a),
        normalized_set(b, out_b),
    ensures
        forall|i: int| 0 <= i < out_a.len() ==> covered_by(#[trigger] out_a[i], out_b),
{
    assert forall|i: int| 0 <= i < out_a.len() implies covered_by(#[trigger] out_a[i], out_b) by {
        assert(from_input(a, out_a[i]));
        let j = lemma_member_covered(a, b, out_a[i], out_b);
        assert(machine_eq(out_a[i], out_b[j]));
    }
}

/// Two lists, each strictly increasing in the total order and each
/// covering the other up to machine equality, agree place by place.
proof fn lemma_keys_match(out_a: Seq<DiagnosticView>, out_b: Seq<DiagnosticView>)
    requires
        forall|i: int, j: int| 0 <= i < j < out_a.len() ==> atoms_lt(order_key(#[trigger] out_a[i]), order_key(#[trigger] out_a[j])),
        forall|i: int, j: int| 0 <= i < j < out_b.len() ==> atoms_lt(order_key(#[trigger] out_b[i]), order_key(#[trigger] out_b[j])),
        forall|i: int| 0 <= i < out_a.len() ==> covered_by(#[trigger] out_a[i], out_b),
        forall|j: int| 0 <= j < out_b.len() ==> covered_by(#[trigger] out_b[j], out_a),
    ensures
        out_a.len() == out_b.len(),
        forall|i: int| 0 <= i < out_a.len() ==> machine_eq(#[trigger] out_a[i], out_b[i]),
{
    let ka = out_a.map_values(|d: DiagnosticView| order_key(d));
    let kb = out_b.map_values(|d: DiagnosticView| order_key(d));
    assert forall|i: int| 0 <= i < ka.len() implies kb.contains(#[trigger] ka[i]) by {
        assert(covered_by(out_a[i], out_b));
        let j = choose|j: int| 0 <= j < out_b.len() && machine_eq(out_a[i], #[trigger] out_b[j]);
        lemma_machine_eq_same_key(out_a[i], out_b[j]);
        assert(kb[j] == ka[i]);
    }
    assert forall|j: int| 0 <= j < kb.len() implies ka.contains(#[trigger] kb[j]) by {
        assert(covered_by(out_b[j], out_a));
        let i = choose|i: int| 0 <= i < out_a.len() && machine_eq(out_b[j], #[trigger] out_a[i]);
        lemma_machine_eq_same_key(out_b[j], out_a[i]);
        assert(ka[i] == kb[j]);
    }
    assert forall|i: int, j: int| 0 <= i < j < ka.len() implies atoms_lt(#[trigger] ka[i], #[trigger] ka[j]) by {
        assert(atoms_lt(order_key(out_a[i]), order_key(out_a[j])));
    }
    assert forall|i: int, j: int| 0 <= i < j < kb.len() implies atoms_lt(#[trigger] kb[i], #[trigger] kb[j]) by {
        assert(atoms_lt(order_key(out_b[i]), order_key(out_b[j])));
    }
    lemma_strict_keys_unique(ka, kb);
    assert(out_a.len() == ka.len() && out_b.len() == kb.len());
    assert forall|i: int| 0 <= i < out_a.len() implies machine_eq(#[trigger] out_a[i], out_b[i]) by {
        assert(covered_by(out_a[i], out_b));
        let j = choose|j: int| 0 <= j < out_b.len() && machine_eq(out_a[i], #[trigger] out_b[j]);
        lemma_machine_eq_same_key(out_a[i], out_b[j]);
        assert(kb[j] == ka[i] && ka[i] == kb[i]);
        if j != i {
            lemma_atoms_lt_irreflexive(kb[i]);
            if j < i {
                assert(atoms_lt(kb[j], kb[i]));
            } else {
                assert(atoms_lt(kb[i], kb[j]));
            }
        }
    }
}

/// Two strictly increasing lists of keys holding the same keys are the
/// same list.
proof fn lemma_strict_keys_unique(a: Seq<Seq<Atom>>, b: Seq<Seq<Atom>>)
    requires
        forall|i: int, j: int| 0 <= i < j < a.len() ==> atoms_lt(#[trigger] a[i], #[trigger] a[j]),
        forall|i: int, j: int| 0 <= i < j < b.len() ==> atoms_lt(#[trigger] b[i], #[trigger] b[j]),
        forall|i: int| 0 <= i < a.len() ==> b.contains(#[trigger] a[i]),
        forall|j: int| 0 <= j < b.len() ==> a.contains(#[trigger] b[j]),
    ensures
        a == b,
    decreases a.len(),
{
    if a.len() == 0 {
        if b.len() > 0 {
            assert(a.contains(b[0]));
        }
        assert(a =~= b);
    } else {
        assert(b.contains(a[0]));
        let m = choose|m: int| 0 <= m < b.len() && b[m] == a[0];
        assert(a.contains(b[0]));
        let n = choose|n: int| 0 <= n < a.len() && a[n] == b[0];
        lemma_atoms_lt_irreflexive(a[0]);
        if m > 0 && n > 0 {
            assert(atoms_lt(b[0], a[0]));
            assert(atoms_lt(a[0], b[0]));
            lemma_atoms_lt_transitive(a[0], b[0], a[0]);
        } else if m > 0 {
            assert(a[0] == b[0]);
        }
        assert(a[0] == b[0]);
        let a1 = a.drop_first();
        let b1 = b.drop_first();
        assert forall|i: int| 0 <= i < a1.len() implies b1.contains(#[trigger] a1[i]) by {
            assert(a1[i] == a[i + 1]);
            assert(atoms_lt(a[0], a[i + 1]));
            let p = choose|p: int| 0 <= p < b.len() && b[p] == a[i + 1];
            if p == 0 {
                lemma_atoms_lt_irreflexive(a[0]);
            }
            assert(b1[p - 1] == b[p]);
        }
        assert forall|j: int| 0 <= j < b1.len() implies a1.contains(#[trigger] b1[j]) by {
            assert(b1[j] == b[j + 1]);
            assert(atoms_lt(b[0], b[j + 1]));
            let p = choose|p: int| 0 <= p < a.len() && a[p] == b[j + 1];
            if p == 0 {
                lemma_atoms_lt_irreflexive(b[0]);
            }
            assert(a1[p - 1] == a[p]);
        }
        assert forall|i: int, j: int| 0 <= i < j < a1.len() implies atoms_lt(#[trigger] a1[i], #[trigger] a1[j]) by {
            assert(atoms_lt(a[i + 1], a[j + 1]));
        }
        assert forall|i: int, j: int| 0 <= i < j < b1.len() implies atoms_lt(#[trigger] b1[i], #[trigger] b1[j]) by {
            assert(atoms_lt(b[i + 1], b[j + 1]));
        }
        lemma_strict_keys_unique(a1, b1);
        assert(a =~= seq![a[0]] + a1);
        assert(b =~= seq![b[0]] + b1);
    }
}

proof fn lemma_allowed_permutation(a: Seq<DiagnosticView>, b: Seq<DiagnosticView>, status: Status)
    requires
        a.to_multiset() == b.to_multiset(),
        DiagnosticSet::all_allowed(a, status),
    ensures
        DiagnosticSet::all_allowed(b, status),
{
    assert forall|k: int| 0 <= k < b.len() implies {
        let row = crate::diagnostics::registry::find_rule(crate::diagnostics::registry::rule_table(), #[trigger] b[k].id);
        row is Some && row.unwrap().lifecycle == crate::diagnostics::registry::Lifecycle::Active && row.unwrap().statuses.contains(status)
    } by {
        assert(b.contains(b[k]));
        assert(a.to_multiset().count(b[k]) > 0);
        assert(a.contains(b[k]));
        let p = choose|p: int| 0 <= p < a.len() && a[p] == b[k];
        assert(a[p].id == b[k].id);
    }
}

proof fn lemma_separate_permutation(a: Seq<DiagnosticView>, b: Seq<DiagnosticView>)
    requires
        a.to_multiset() == b.to_multiset(),
        keys_separate(a),
    ensures
        keys_separate(b),
{
    assert forall|p: int, q: int, n1: DiagnosticView, n2: DiagnosticView|
        0 <= p < b.len() && 0 <= q < b.len() && #[trigger] normalized(b[p], n1) && #[trigger] normalized(b[q], n2)
        && order_key(n1) == order_key(n2) implies machine_eq(n1, n2) by {
        assert(b.contains(b[p]));
        assert(a.to_multiset().count(b[p]) > 0);
        assert(b.contains(b[q]));
        assert(a.to_multiset().count(b[q]) > 0);
        let pa = choose|x: int| 0 <= x < a.len() && a[x] == b[p];
        let qa = choose|x: int| 0 <= x < a.len() && a[x] == b[q];
        assert(normalized(a[pa], n1) && normalized(a[qa], n2));
    }
}

/// Normalizing does not depend on the order the producers emitted the
/// diagnostics in: rearranging the input leaves the status verdict as it
/// is, and gives a set of the same length whose members are
/// machine-equal place by place, provided no two input diagnostics sort
/// at the same place while differing in what machine equality compares.
pub proof fn lemma_normalized_set_order_free(a: Seq<DiagnosticView>, b: Seq<DiagnosticView>,
    out_a: Seq<DiagnosticView>, out_b: Seq<DiagnosticView>, status: Status)
    requires
        a.to_multiset() == b.to_multiset(),
        keys_separate(a),
        normalized_set(a, out_a),
        normalized_set(b, out_b),
    ensures
        DiagnosticSet::all_allowed(a, status) == DiagnosticSet::all_allowed(b, status),
        a.len() == b.len(),
        out_a.len() == out_b.len(),
        forall|i: int| 0 <= i < out_a.len() ==> machine_eq(#[trigger] out_a[i], out_b[i]),
{
    assert(a.len() == a.to_multiset().len());
    assert(b.len() == b.to_multiset().len());
    if DiagnosticSet::all_allowed(a, status) {
        lemma_allowed_permutation(a, b, status);
    }
    if DiagnosticSet::all_allowed(b, status) {
        lemma_allowed_permutation(b, a, status);
    }
    lemma_separate_permutation(a, b);
    lemma_out_strict(a, out_a);
    lemma_out_strict(b, out_b);
    lemma_out_covered(a, b, out_a, out_b);
    lemma_out_covered(b, a, out_b, out_a);
    lemma_keys_match(out_a, out_b);
}

} // verus!
