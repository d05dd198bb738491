//! The typed facts of a context capsule: every fact carries its stable
//! id and the semantic text values the fixed estimator counts, so the
//! included/excluded manifest is explainable fact by fact.

use vstd::prelude::*;
use vstd::string::StringExecFns;
use crate::text::{decimal, push_decimal};
use crate::json::{JsonNumber, JsonTree, JsonValue, NumberTree, field_trees, render_json, rendered_json, tree, trees};

verus! {

/// The structured wire form of a type reference.
#[derive(Debug, PartialEq, Eq)]
pub enum WireType {
    Ref(String),
    List(Box<WireType>),
    Optional(Box<WireType>),
}

/// The loader type-sugar spelling: `ref`, `list<T>`, `T?`.
pub open spec fn spell_of(t: WireType) -> Seq<char>
    decreases t,
{
    match t {
        WireType::Ref(id) => id@,
        WireType::List(inner) => "list<"@ + spell_of(*inner) + ">"@,
        WireType::Optional(inner) => spell_of(*inner) + "?"@,
    }
}

impl WireType {
    /// The loader type-sugar spelling (`ref`, `list<T>`, `T?`).
    pub fn spell(&self) -> (r: String)
        ensures
            r@ == spell_of(*self),
        decreases self,
    {
        proof {
            reveal_strlit("list<");
            reveal_strlit(">");
            reveal_strlit("?");
        }
        match self {
            WireType::Ref(id) => id.as_str().to_owned(),
            WireType::List(inner) => {
                let mut out = "list<".to_owned();
                let s = inner.spell();
                out.append(s.as_str());
                out.append(">");
                out
            },
            WireType::Optional(inner) => {
                let mut out = inner.spell();
                out.append("?");
                out
            },
        }
    }
}

/// One typed field row of a contract.
#[derive(Debug, PartialEq, Eq)]
pub struct WireField {
    pub name: String,
    pub required: bool,
    pub ty: WireType,
}

/// The canonical contract of one definition kind.
#[derive(Debug, PartialEq, Eq)]
pub enum Contract {
    Scalar { base: String },
    Enum { values: Vec<(String, Option<String>)> },
    Fields { fields: Vec<WireField>, identity: Vec<String> },
    Command { input: Vec<WireField>, effects: Vec<String> },
    Query { reads: Vec<String>, returns: Option<WireType> },
    Policy { applies_to: Vec<String>, decision: String },
    Event { payload: Vec<WireField> },
    Effect { operation: String, entity: String, emits: Vec<String> },
    Endpoint { invokes: String, method: String, path: String },
    Scenario { covers: Vec<String>, summary: String },
    Binding { target: String },
}

/// A definition card: identity plus the canonical kind contract.
#[derive(Debug, PartialEq, Eq)]
pub struct CardFact {
    pub qualified: String,
    pub kind: String,
    pub subkind: Option<String>,
    pub module: Option<String>,
    pub version: Option<u64>,
    pub visibility: Option<String>,
    pub portability: Option<String>,
    pub derived_from: Vec<String>,
    pub description: Option<String>,
    pub contract: Option<Contract>,
}

/// One effect edge fact.
#[derive(Clone, Debug, PartialEq, Eq)]
pub struct EffectFact {
    pub operation: String,
    pub kind: String,
    pub action: Option<String>,
    pub resource_kind: String,
    pub resource: String,
    pub field: Option<String>,
    pub occurrence: u32,
    pub confidence: String,
}

/// One graph edge fact.
#[derive(Clone, Debug, PartialEq, Eq)]
pub struct EdgeFact {
    pub relation: String,
    pub from: String,
    pub to: String,
    pub occurrence: u32,
    pub confidence: String,
}

/// One typed fact of a capsule.
#[derive(Debug, PartialEq, Eq)]
pub enum Fact {
    Card(CardFact),
    Policy { id: String, decision: String, applies_to: Vec<String>, description: Option<String> },
    Effect(EffectFact),
    Edge(EdgeFact),
    Scenario { id: String, summary: String, covers: Vec<String> },
    Binding { id: String, target: String },
}

/// The texts of strings.
pub open spec fn texts(s: Seq<String>) -> Seq<Seq<char>> {
    s.map_values(|t: String| t@)
}

/// The text of an optional string, as zero or one part.
pub open spec fn opt_part(s: Option<String>) -> Seq<Seq<char>> {
    match s {
        Some(t) => seq![t@],
        None => Seq::empty(),
    }
}

/// The content parts of field rows: the name, `required` when it is,
/// and the type spelling.
pub open spec fn fields_parts(fs: Seq<WireField>) -> Seq<Seq<char>>
    decreases fs.len(),
{
    if fs.len() == 0 {
        Seq::empty()
    } else {
        let f = fs.last();
        fields_parts(fs.drop_last()) + seq![f.name@] + (if f.required { seq!["required"@] } else { Seq::empty() })
            + seq![spell_of(f.ty)]
    }
}

/// The content parts of enum values: each value, then its description.
pub open spec fn values_parts(vs: Seq<(String, Option<String>)>) -> Seq<Seq<char>>
    decreases vs.len(),
{
    if vs.len() == 0 {
        Seq::empty()
    } else {
        values_parts(vs.drop_last()) + seq![vs.last().0@] + opt_part(vs.last().1)
    }
}

/// The content parts of a contract.
pub open spec fn contract_parts(c: Option<Contract>) -> Seq<Seq<char>> {
    match c {
        None => Seq::empty(),
        Some(Contract::Scalar { base }) => seq![base@],
        Some(Contract::Enum { values }) => values_parts(values@),
        Some(Contract::Fields { fields, identity }) => fields_parts(fields@) + texts(identity@),
        Some(Contract::Command { input, effects }) => fields_parts(input@) + texts(effects@),
        Some(Contract::Query { reads, returns }) => texts(reads@) + match returns {
            Some(t) => seq![spell_of(t)],
            None => Seq::empty(),
        },
        Some(Contract::Policy { applies_to, decision }) => seq![decision@] + texts(applies_to@),
        Some(Contract::Event { payload }) => fields_parts(payload@),
        Some(Contract::Effect { operation, entity, emits }) => seq![operation@, entity@] + texts(emits@),
        Some(Contract::Endpoint { invokes, method, path }) => seq![method@, path@, invokes@],
        Some(Contract::Scenario { covers, summary }) => seq![summary@] + texts(covers@),
        Some(Contract::Binding { target }) => seq![target@],
    }
}

/// The semantic text values of a fact, in their fixed order.
pub open spec fn fact_parts(f: Fact) -> Seq<Seq<char>> {
    match f {
        Fact::Card(c) => seq![c.kind@, c.qualified@] + opt_part(c.subkind) + opt_part(c.module)
            + (match c.version { Some(v) => seq![decimal(v as nat)], None => Seq::empty() })
            + opt_part(c.visibility) + opt_part(c.portability) + texts(c.derived_from@) + opt_part(c.description)
            + contract_parts(c.contract),
        Fact::Policy { id, decision, applies_to, description } => seq![id@, decision@] + texts(applies_to@)
            + opt_part(description),
        Fact::Effect(e) => seq![e.operation@, e.kind@] + opt_part(e.action) + seq![e.resource_kind@, e.resource@]
            + opt_part(e.field) + seq![decimal(e.occurrence as nat), e.confidence@],
        Fact::Edge(e) => seq![e.relation@, e.from@, e.to@, decimal(e.occurrence as nat), e.confidence@],
        Fact::Scenario { id, summary, covers } => seq![id@, summary@] + texts(covers@),
        Fact::Binding { id, target } => seq![id@, target@],
    }
}

/// Texts joined by single spaces.
pub open spec fn joined(parts: Seq<Seq<char>>) -> Seq<char>
    decreases parts.len(),
{
    if parts.len() == 0 {
        Seq::empty()
    } else if parts.len() == 1 {
        parts[0]
    } else {
        joined(parts.drop_last()) + " "@ + parts.last()
    }
}

/// The stable id of a fact, unique inside its section.
pub open spec fn fact_id(f: Fact) -> Seq<char> {
    match f {
        Fact::Card(c) => c.qualified@,
        Fact::Policy { id, .. } => id@,
        Fact::Effect(e) => "effect:"@ + e.kind@ + ":"@ + e.operation@ + "->"@ + e.resource_kind@ + ":"@
            + (match e.field { Some(x) => e.resource@ + "."@ + x@, None => e.resource@ }) + "#"@
            + decimal(e.occurrence as nat),
        Fact::Edge(e) => "edge:"@ + e.relation@ + ":"@ + e.from@ + "->"@ + e.to@ + "#"@ + decimal(e.occurrence as nat),
        Fact::Scenario { id, .. } => id@,
        Fact::Binding { id, .. } => id@,
    }
}

fn push_texts(parts: &mut Vec<String>, items: &Vec<String>)
    ensures
        texts(final(parts)@) == texts(old(parts)@) + texts(items@),
{
    let ghost start = texts(parts@);
    let mut i: usize = 0;
    while i < items.len()
        invariant
            i <= items@.len(),
            texts(parts@) == start + texts(items@.take(i as int)),
        decreases items@.len() - i,
    {
        let ghost before = texts(parts@);
        parts.push(items[i].as_str().to_owned());
        assert(texts(parts@) =~= before.push(items@[i as int]@));
        assert(texts(items@.take(i + 1)) =~= texts(items@.take(i as int)).push(items@[i as int]@));
        i = i + 1;
    }
    assert(items@.take(items@.len() as int) =~= items@);
}

fn push_text(parts: &mut Vec<String>, t: &str)
    ensures
        texts(final(parts)@) == texts(old(parts)@).push(t@),
{
    let ghost before = texts(parts@);
    parts.push(t.to_owned());
    assert(texts(parts@) =~= before.push(t@));
}

fn push_opt(parts: &mut Vec<String>, t: &Option<String>)
    ensures
        texts(final(parts)@) == texts(old(parts)@) + opt_part(*t),
{
    match t {
        Some(x) => {
            push_text(parts, x.as_str());
            assert(texts(parts@) =~= texts(old(parts)@) + opt_part(*t));
        },
        None => {
            assert(texts(parts@) =~= texts(old(parts)@) + opt_part(*t));
        },
    }
}

pub(crate) fn decimal_text(n: u64) -> (r: String)
    ensures
        r@ == decimal(n as nat),
{
    let mut out = String::new();
    push_decimal(&mut out, n);
    assert(out@ =~= decimal(n as nat));
    out
}

fn push_fields(parts: &mut Vec<String>, fs: &Vec<WireField>)
    ensures
        texts(final(parts)@) == texts(old(parts)@) + fields_parts(fs@),
{
    proof { reveal_strlit("required"); }
    let ghost start = texts(parts@);
    let mut i: usize = 0;
    assert(fs@.take(0) =~= Seq::<WireField>::empty());
    assert(start + fields_parts(fs@.take(0)) =~= start);
    while i < fs.len()
        invariant
            i <= fs@.len(),
            texts(parts@) == start + fields_parts(fs@.take(i as int)),
        decreases fs@.len() - i,
    {
        let f = &fs[i];
        proof {
            assert(fs@.take(i + 1).drop_last() =~= fs@.take(i as int));
            assert(fs@.take(i + 1).last() == *f);
        }
        let ghost before = texts(parts@);
        push_text(parts, f.name.as_str());
        if f.required {
            push_text(parts, "required");
        }
        let s = f.ty.spell();
        push_text(parts, s.as_str());
        assert(texts(parts@) =~= start + fields_parts(fs@.take(i + 1)));
        i = i + 1;
    }
    assert(fs@.take(fs@.len() as int) =~= fs@);
}

fn push_values(parts: &mut Vec<String>, vs: &Vec<(String, Option<String>)>)
    ensures
        texts(final(parts)@) == texts(old(parts)@) + values_parts(vs@),
{
    let ghost start = texts(parts@);
    let mut i: usize = 0;
    assert(vs@.take(0) =~= Seq::<(String, Option<String>)>::empty());
    assert(start + values_parts(vs@.take(0)) =~= start);
    while i < vs.len()
        invariant
            i <= vs@.len(),
            texts(parts@) == start + values_parts(vs@.take(i as int)),
        decreases vs@.len() - i,
    {
        let v = &vs[i];
        proof {
            assert(vs@.take(i + 1).drop_last() =~= vs@.take(i as int));
            assert(vs@.take(i + 1).last() == *v);
        }
        push_text(parts, v.0.as_str());
        push_opt(parts, &v.1);
        assert(texts(parts@) =~= start + values_parts(vs@.take(i + 1)));
        i = i + 1;
    }
    assert(vs@.take(vs@.len() as int) =~= vs@);
}

fn push_contract(parts: &mut Vec<String>, c: &Option<Contract>)
    ensures
        texts(final(parts)@) == texts(old(parts)@) + contract_parts(*c),
{
    let ghost start = texts(parts@);
    match c {
        None => {},
        Some(Contract::Scalar { base }) => push_text(parts, base.as_str()),
        Some(Contract::Enum { values }) => push_values(parts, values),
        Some(Contract::Fields { fields, identity }) => {
            push_fields(parts, fields);
            push_texts(parts, identity);
        },
        Some(Contract::Command { input, effects }) => {
            push_fields(parts, input);
            push_texts(parts, effects);
        },
        Some(Contract::Query { reads, returns }) => {
            push_texts(parts, reads);
            match returns {
                Some(t) => {
                    let s = t.spell();
                    push_text(parts, s.as_str());
                },
                None => {},
            }
        },
        Some(Contract::Policy { applies_to, decision }) => {
            push_text(parts, decision.as_str());
            push_texts(parts, applies_to);
        },
        Some(Contract::Event { payload }) => push_fields(parts, payload),
        Some(Contract::Effect { operation, entity, emits }) => {
            push_text(parts, operation.as_str());
            push_text(parts, entity.as_str());
            push_texts(parts, emits);
        },
        Some(Contract::Endpoint { invokes, method, path }) => {
            push_text(parts, method.as_str());
            push_text(parts, path.as_str());
            push_text(parts, invokes.as_str());
        },
        Some(Contract::Scenario { covers, summary }) => {
            push_text(parts, summary.as_str());
            push_texts(parts, covers);
        },
        Some(Contract::Binding { target }) => push_text(parts, target.as_str()),
    }
    assert(texts(parts@) =~= start + contract_parts(*c));
}

fn join_parts(parts: &Vec<String>) -> (r: String)
    ensures
        r@ == joined(texts(parts@)),
{
    let ghost all = texts(parts@);
    let mut out = String::new();
    let mut i: usize = 0;
    assert(all.take(0) =~= Seq::<Seq<char>>::empty());
    while i < parts.len()
        invariant
            all == texts(parts@),
            i <= parts@.len(),
            out@ == joined(all.take(i as int)),
        decreases parts@.len() - i,
    {
        proof {
            assert(all.take(i + 1).drop_last() =~= all.take(i as int));
            assert(all.take(i + 1).last() == parts@[i as int]@);
            reveal_strlit(" ");
        }
        if i > 0 {
            out.append(" ");
        }
        out.append(parts[i].as_str());
        proof {
            if i == 0 {
                assert(all.take(1) =~= seq![parts@[0]@]);
                assert(out@ =~= joined(all.take(1)));
            }
        }
        i = i + 1;
    }
    assert(all.take(parts@.len() as int) =~= all);
    out
}

impl Fact {
    /// The stable fact id (unique inside its section).
    pub fn id(&self) -> (r: String)
        ensures
            r@ == fact_id(*self),
    {
        proof {
            reveal_strlit("effect:");
            reveal_strlit("edge:");
            reveal_strlit(":");
            reveal_strlit("->");
            reveal_strlit(".");
            reveal_strlit("#");
        }
        match self {
            Fact::Card(c) => c.qualified.as_str().to_owned(),
            Fact::Policy { id, .. } => id.as_str().to_owned(),
            Fact::Effect(e) => {
                let mut out = "effect:".to_owned();
                out.append(e.kind.as_str());
                out.append(":");
                out.append(e.operation.as_str());
                out.append("->");
                out.append(e.resource_kind.as_str());
                out.append(":");
                out.append(e.resource.as_str());
                match &e.field {
                    Some(x) => {
                        out.append(".");
                        out.append(x.as_str());
                    },
                    None => {},
                }
                out.append("#");
                push_decimal(&mut out, e.occurrence as u64);
                assert(out@ =~= fact_id(*self));
                out
            },
            Fact::Edge(e) => {
                let mut out = "edge:".to_owned();
                out.append(e.relation.as_str());
                out.append(":");
                out.append(e.from.as_str());
                out.append("->");
                out.append(e.to.as_str());
                out.append("#");
                push_decimal(&mut out, e.occurrence as u64);
                assert(out@ =~= fact_id(*self));
                out
            },
            Fact::Scenario { id, .. } => id.as_str().to_owned(),
            Fact::Binding { id, .. } => id.as_str().to_owned(),
        }
    }

    /// The estimator content: the semantic text values of the fact
    /// joined by single spaces, in a fixed order.
    pub fn content(&self) -> (r: String)
        ensures
            r@ == joined(fact_parts(*self)),
    {
        let mut parts: Vec<String> = Vec::new();
        assert(texts(parts@) =~= Seq::<Seq<char>>::empty());
        match self {
            Fact::Card(c) => {
                push_text(&mut parts, c.kind.as_str());
                push_text(&mut parts, c.qualified.as_str());
                push_opt(&mut parts, &c.subkind);
                push_opt(&mut parts, &c.module);
                match c.version {
                    Some(v) => {
                        let t = decimal_text(v);
                        push_text(&mut parts, t.as_str());
                    },
                    None => {},
                }
                push_opt(&mut parts, &c.visibility);
                push_opt(&mut parts, &c.portability);
                push_texts(&mut parts, &c.derived_from);
                push_opt(&mut parts, &c.description);
                push_contract(&mut parts, &c.contract);
            },
            Fact::Policy { id, decision, applies_to, description } => {
                push_text(&mut parts, id.as_str());
                push_text(&mut parts, decision.as_str());
                push_texts(&mut parts, applies_to);
                push_opt(&mut parts, description);
            },
            Fact::Effect(e) => {
                push_text(&mut parts, e.operation.as_str());
                push_text(&mut parts, e.kind.as_str());
                push_opt(&mut parts, &e.action);
                push_text(&mut parts, e.resource_kind.as_str());
                push_text(&mut parts, e.resource.as_str());
                push_opt(&mut parts, &e.field);
                let t = decimal_text(e.occurrence as u64);
                push_text(&mut parts, t.as_str());
                push_text(&mut parts, e.confidence.as_str());
            },
            Fact::Edge(e) => {
                push_text(&mut parts, e.relation.as_str());
                push_text(&mut parts, e.from.as_str());
                push_text(&mut parts, e.to.as_str());
                let t = decimal_text(e.occurrence as u64);
                push_text(&mut parts, t.as_str());
                push_text(&mut parts, e.confidence.as_str());
            },
            Fact::Scenario { id, summary, covers } => {
                push_text(&mut parts, id.as_str());
                push_text(&mut parts, summary.as_str());
                push_texts(&mut parts, covers);
            },
            Fact::Binding { id, target } => {
                push_text(&mut parts, id.as_str());
                push_text(&mut parts, target.as_str());
            },
        }
        assert(texts(parts@) =~= fact_parts(*self));
        join_parts(&parts)
    }

    /// The estimated token count of this fact.
    pub fn tokens(&self) -> (r: u64)
        ensures
            r == super::estimate::spec_tokens(joined(fact_parts(*self)).len()),
    {
        let c = self.content();
        super::estimate::tokens(c.as_str())
    }
}

// ---------------------------------------------------------------------
// The canonical JSON projection

/// A text value.
pub open spec fn text_tree(t: Seq<char>) -> JsonTree {
    JsonTree::Text(t)
}

/// An optional text value: the text, or `null`.
pub open spec fn opt_tree(t: Option<String>) -> JsonTree {
    match t {
        Some(x) => JsonTree::Text(x@),
        None => JsonTree::Null,
    }
}

/// A list of texts.
pub open spec fn texts_tree(s: Seq<String>) -> JsonTree {
    JsonTree::Array(Seq::new(s.len(), |i: int| JsonTree::Text(s[i]@)))
}

/// An unsigned number.
pub open spec fn count_tree(n: u64) -> JsonTree {
    JsonTree::Number(NumberTree::Unsigned(n))
}

/// The structured form of a type reference.
pub open spec fn type_tree(t: WireType) -> JsonTree
    decreases t,
{
    match t {
        WireType::Ref(id) => JsonTree::Object(seq![("ref"@, JsonTree::Text(id@))]),
        WireType::List(inner) => JsonTree::Object(seq![("list"@, type_tree(*inner))]),
        WireType::Optional(inner) => JsonTree::Object(seq![("optional"@, type_tree(*inner))]),
    }
}

/// One field row.
pub open spec fn field_tree(f: WireField) -> JsonTree {
    JsonTree::Object(seq![("name"@, JsonTree::Text(f.name@)), ("required"@, JsonTree::Bool(f.required)),
        ("type"@, type_tree(f.ty))])
}

/// The field rows.
pub open spec fn fields_tree(fs: Seq<WireField>) -> JsonTree {
    JsonTree::Array(Seq::new(fs.len(), |i: int| field_tree(fs[i])))
}

/// One enum value row: the value, then its description when it has one.
pub open spec fn value_tree(v: (String, Option<String>)) -> JsonTree {
    JsonTree::Object(seq![("value"@, JsonTree::Text(v.0@))] + match v.1 {
        Some(d) => seq![("description"@, JsonTree::Text(d@))],
        None => Seq::empty(),
    })
}

/// The members of a contract's canonical form.
pub open spec fn contract_members(c: Contract) -> Seq<(Seq<char>, JsonTree)> {
    match c {
        Contract::Scalar { base } => (seq![("base"@, text_tree(base@))]),
        Contract::Enum { values } => (seq![("values"@,
            JsonTree::Array(Seq::new(values@.len(), |i: int| value_tree(values@[i]))))]),
        Contract::Fields { fields, identity } => (seq![("fields"@, fields_tree(fields@))]
            + if identity@.len() > 0 { seq![("identity"@, texts_tree(identity@))] } else { Seq::empty() }),
        Contract::Command { input, effects } => (seq![("effects"@, texts_tree(effects@)),
            ("input"@, fields_tree(input@))]),
        Contract::Query { reads, returns } => (seq![("reads"@, texts_tree(reads@)),
            ("returns"@, match returns { Some(t) => type_tree(t), None => JsonTree::Null })]),
        Contract::Policy { applies_to, decision } => (seq![("appliesTo"@, texts_tree(applies_to@)),
            ("decision"@, text_tree(decision@))]),
        Contract::Event { payload } => (seq![("payload"@, fields_tree(payload@))]),
        Contract::Effect { operation, entity, emits } => (seq![("emits"@, texts_tree(emits@)),
            ("entity"@, text_tree(entity@)), ("operation"@, text_tree(operation@))]),
        Contract::Endpoint { invokes, method, path } => (seq![("invokes"@, text_tree(invokes@)),
            ("method"@, text_tree(method@)), ("path"@, text_tree(path@))]),
        Contract::Scenario { covers, summary } => (seq![("covers"@, texts_tree(covers@)),
            ("summary"@, text_tree(summary@))]),
        Contract::Binding { target } => (seq![("target"@, text_tree(target@))]),
    }
}

/// The canonical form of a contract.
pub open spec fn contract_tree(c: Contract) -> JsonTree {
    JsonTree::Object(contract_members(c))
}

/// An optional member, present only when the value is.
pub open spec fn opt_member(name: Seq<char>, t: Option<String>) -> Seq<(Seq<char>, JsonTree)> {
    match t {
        Some(x) => seq![(name, JsonTree::Text(x@))],
        None => Seq::empty(),
    }
}

/// The members of a card's canonical form.
pub open spec fn card_members(c: CardFact) -> Seq<(Seq<char>, JsonTree)> {
    (seq![("description"@, opt_tree(c.description)), ("id"@, text_tree(c.qualified@)),
        ("kind"@, text_tree(c.kind@)), ("module"@, opt_tree(c.module))]
        + (match c.version { Some(v) => seq![("version"@, count_tree(v))], None => Seq::empty() })
        + opt_member("visibility"@, c.visibility) + opt_member("portability"@, c.portability)
        + (if c.derived_from@.len() > 0 { seq![("derivedFrom"@, texts_tree(c.derived_from@))] } else { Seq::empty() })
        + opt_member("subkind"@, c.subkind)
        + (match c.contract { Some(k) => seq![("contract"@, contract_tree(k))], None => Seq::empty() }))
}

/// The canonical form of a card.
pub open spec fn card_tree(c: CardFact) -> JsonTree {
    JsonTree::Object(card_members(c))
}

/// The members of a fact's canonical form (a card has its own).
pub open spec fn fact_members(f: Fact) -> Seq<(Seq<char>, JsonTree)> {
    match f {
        Fact::Card(c) => card_members(c),
        Fact::Policy { id, decision, applies_to, description } => (seq![
            ("appliesTo"@, texts_tree(applies_to@)), ("decision"@, text_tree(decision@)), ("id"@, text_tree(id@))]
            + opt_member("description"@, description)),
        Fact::Effect(e) => (seq![("action"@, opt_tree(e.action)), ("confidence"@, text_tree(e.confidence@)),
            ("kind"@, text_tree(e.kind@)), ("occurrence"@, count_tree(e.occurrence as u64)),
            ("operation"@, text_tree(e.operation@)),
            ("resource"@, JsonTree::Object(seq![("id"@, text_tree(e.resource@)), ("kind"@, text_tree(e.resource_kind@))])),
            ("field"@, opt_tree(e.field))]),
        Fact::Edge(e) => (seq![("confidence"@, text_tree(e.confidence@)), ("from"@, text_tree(e.from@)),
            ("occurrence"@, count_tree(e.occurrence as u64)), ("relation"@, text_tree(e.relation@)), ("to"@, text_tree(e.to@))]),
        Fact::Scenario { id, summary, covers } => (seq![("covers"@, texts_tree(covers@)),
            ("id"@, text_tree(id@)), ("summary"@, text_tree(summary@))]),
        Fact::Binding { id, target } => (seq![("id"@, text_tree(id@)), ("target"@, text_tree(target@))]),
    }
}

/// The canonical form of a fact; the rendering sorts the members by
/// name bytes.
pub open spec fn fact_tree(f: Fact) -> JsonTree {
    JsonTree::Object(fact_members(f))
}

pub(crate) fn put_member(fields: &mut Vec<(String, JsonValue)>, name: &str, v: JsonValue)
    ensures
        field_trees(final(fields)@) == field_trees(old(fields)@).push((name@, tree(v))),
{
    let ghost before = fields@;
    fields.push((name.to_owned(), v));
    assert(field_trees(fields@) =~= field_trees(before).push((name@, tree(v)))) by {
        assert forall|i: int| 0 <= i < before.len() implies field_trees(fields@)[i] == field_trees(before)[i] by {
            assert(fields@[i] == before[i]);
        }
    }
}

pub(crate) fn text_value(t: &str) -> (r: JsonValue)
    ensures
        tree(r) == JsonTree::Text(t@),
{
    JsonValue::Text(t.to_owned())
}

fn opt_value(t: &Option<String>) -> (r: JsonValue)
    ensures
        tree(r) == opt_tree(*t),
{
    match t {
        Some(x) => JsonValue::Text(x.as_str().to_owned()),
        None => JsonValue::Null,
    }
}

pub(crate) fn texts_value(s: &Vec<String>) -> (r: JsonValue)
    ensures
        tree(r) == texts_tree(s@),
{
    let mut items: Vec<JsonValue> = Vec::new();
    let mut i: usize = 0;
    while i < s.len()
        invariant
            i <= s@.len(),
            items@.len() == i,
            forall|k: int| 0 <= k < i ==> tree(#[trigger] items@[k]) == JsonTree::Text(s@[k]@),
        decreases s@.len() - i,
    {
        items.push(JsonValue::Text(s[i].as_str().to_owned()));
        i = i + 1;
    }
    let r = JsonValue::Array(items);
    assert(trees(items@) =~= Seq::new(s@.len(), |k: int| JsonTree::Text(s@[k]@)));
    r
}

fn type_value(t: &WireType) -> (r: JsonValue)
    ensures
        tree(r) == type_tree(*t),
    decreases t,
{
    let mut fields: Vec<(String, JsonValue)> = Vec::new();
    assert(field_trees(fields@) =~= Seq::<(Seq<char>, JsonTree)>::empty());
    match t {
        WireType::Ref(id) => put_member(&mut fields, "ref", text_value(id.as_str())),
        WireType::List(inner) => put_member(&mut fields, "list", type_value(inner)),
        WireType::Optional(inner) => put_member(&mut fields, "optional", type_value(inner)),
    }
    let r = JsonValue::Object(fields);
    assert(tree(r) =~~= type_tree(*t));
    r
}

fn fields_value(fs: &Vec<WireField>) -> (r: JsonValue)
    ensures
        tree(r) == fields_tree(fs@),
{
    let mut items: Vec<JsonValue> = Vec::new();
    let mut i: usize = 0;
    while i < fs.len()
        invariant
            i <= fs@.len(),
            items@.len() == i,
            forall|k: int| 0 <= k < i ==> tree(#[trigger] items@[k]) == field_tree(fs@[k]),
        decreases fs@.len() - i,
    {
        let f = &fs[i];
        let mut fields: Vec<(String, JsonValue)> = Vec::new();
        assert(field_trees(fields@) =~= Seq::<(Seq<char>, JsonTree)>::empty());
        put_member(&mut fields, "name", text_value(f.name.as_str()));
        put_member(&mut fields, "required", JsonValue::Bool(f.required));
        put_member(&mut fields, "type", type_value(&f.ty));
        assert(field_trees(fields@) =~= seq![("name"@, JsonTree::Text(f.name@)), ("required"@, JsonTree::Bool(f.required)),
            ("type"@, type_tree(f.ty))]);
        let v = JsonValue::Object(fields);
        assert(tree(v) == field_tree(*f));
        items.push(v);
        i = i + 1;
    }
    let r = JsonValue::Array(items);
    assert(trees(items@) =~= Seq::new(fs@.len(), |k: int| field_tree(fs@[k])));
    r
}

fn values_value(vs: &Vec<(String, Option<String>)>) -> (r: JsonValue)
    ensures
        tree(r) == JsonTree::Array(Seq::new(vs@.len(), |i: int| value_tree(vs@[i]))),
{
    let mut items: Vec<JsonValue> = Vec::new();
    let mut i: usize = 0;
    while i < vs.len()
        invariant
            i <= vs@.len(),
            items@.len() == i,
            forall|k: int| 0 <= k < i ==> tree(#[trigger] items@[k]) == value_tree(vs@[k]),
        decreases vs@.len() - i,
    {
        let v = &vs[i];
        let mut fields: Vec<(String, JsonValue)> = Vec::new();
        assert(field_trees(fields@) =~= Seq::<(Seq<char>, JsonTree)>::empty());
        put_member(&mut fields, "value", text_value(v.0.as_str()));
        match &v.1 {
            Some(d) => put_member(&mut fields, "description", text_value(d.as_str())),
            None => {},
        }
        assert(field_trees(fields@) =~= seq![("value"@, JsonTree::Text(v.0@))] + match v.1 {
            Some(d) => seq![("description"@, JsonTree::Text(d@))],
            None => Seq::empty(),
        });
        let x = JsonValue::Object(fields);
        assert(tree(x) == value_tree(*v));
        items.push(x);
        i = i + 1;
    }
    let r = JsonValue::Array(items);
    assert(trees(items@) =~= Seq::new(vs@.len(), |k: int| value_tree(vs@[k])));
    r
}

fn contract_value(c: &Contract) -> (r: JsonValue)
    ensures
        tree(r) == contract_tree(*c),
{
    let mut f: Vec<(String, JsonValue)> = Vec::new();
    assert(field_trees(f@) =~= Seq::<(Seq<char>, JsonTree)>::empty());
    match c {
        Contract::Scalar { base } => put_member(&mut f, "base", text_value(base.as_str())),
        Contract::Enum { values } => put_member(&mut f, "values", values_value(values)),
        Contract::Fields { fields, identity } => {
            put_member(&mut f, "fields", fields_value(fields));
            if identity.len() > 0 {
                put_member(&mut f, "identity", texts_value(identity));
            }
        },
        Contract::Command { input, effects } => {
            put_member(&mut f, "effects", texts_value(effects));
            put_member(&mut f, "input", fields_value(input));
        },
        Contract::Query { reads, returns } => {
            put_member(&mut f, "reads", texts_value(reads));
            let t = match returns {
                Some(t) => type_value(t),
                None => JsonValue::Null,
            };
            put_member(&mut f, "returns", t);
        },
        Contract::Policy { applies_to, decision } => {
            put_member(&mut f, "appliesTo", texts_value(applies_to));
            put_member(&mut f, "decision", text_value(decision.as_str()));
        },
        Contract::Event { payload } => put_member(&mut f, "payload", fields_value(payload)),
        Contract::Effect { operation, entity, emits } => {
            put_member(&mut f, "emits", texts_value(emits));
            put_member(&mut f, "entity", text_value(entity.as_str()));
            put_member(&mut f, "operation", text_value(operation.as_str()));
        },
        Contract::Endpoint { invokes, method, path } => {
            put_member(&mut f, "invokes", text_value(invokes.as_str()));
            put_member(&mut f, "method", text_value(method.as_str()));
            put_member(&mut f, "path", text_value(path.as_str()));
        },
        Contract::Scenario { covers, summary } => {
            put_member(&mut f, "covers", texts_value(covers));
            put_member(&mut f, "summary", text_value(summary.as_str()));
        },
        Contract::Binding { target } => put_member(&mut f, "target", text_value(target.as_str())),
    }
    assert(field_trees(f@) =~= contract_members(*c));
    let r = JsonValue::Object(f);
    r
}

#[verifier::rlimit(40)]
fn card_value(c: &CardFact) -> (r: JsonValue)
    ensures
        tree(r) == card_tree(*c),
{
    let mut f: Vec<(String, JsonValue)> = Vec::new();
    assert(field_trees(f@) =~= Seq::<(Seq<char>, JsonTree)>::empty());
    put_member(&mut f, "description", opt_value(&c.description));
    put_member(&mut f, "id", text_value(c.qualified.as_str()));
    put_member(&mut f, "kind", text_value(c.kind.as_str()));
    put_member(&mut f, "module", opt_value(&c.module));
    let ghost base = field_trees(f@);
    assert(base =~= seq![("description"@, opt_tree(c.description)), ("id"@, text_tree(c.qualified@)),
        ("kind"@, text_tree(c.kind@)), ("module"@, opt_tree(c.module))]);
    match c.version {
        Some(v) => put_member(&mut f, "version", JsonValue::Number(JsonNumber::Unsigned(v))),
        None => {},
    }
    assert(field_trees(f@) =~= base + (match c.version { Some(v) => seq![("version"@, count_tree(v))], None => Seq::empty() }));
    let ghost a = field_trees(f@);
    match &c.visibility {
        Some(x) => put_member(&mut f, "visibility", text_value(x.as_str())),
        None => {},
    }
    assert(field_trees(f@) =~= a + opt_member("visibility"@, c.visibility));
    let ghost b = field_trees(f@);
    match &c.portability {
        Some(x) => put_member(&mut f, "portability", text_value(x.as_str())),
        None => {},
    }
    assert(field_trees(f@) =~= b + opt_member("portability"@, c.portability));
    let ghost d = field_trees(f@);
    if c.derived_from.len() > 0 {
        put_member(&mut f, "derivedFrom", texts_value(&c.derived_from));
    }
    assert(field_trees(f@) =~= d + (if c.derived_from@.len() > 0 { seq![("derivedFrom"@, texts_tree(c.derived_from@))] } else { Seq::empty() }));
    let ghost e = field_trees(f@);
    match &c.subkind {
        Some(x) => put_member(&mut f, "subkind", text_value(x.as_str())),
        None => {},
    }
    assert(field_trees(f@) =~= e + opt_member("subkind"@, c.subkind));
    let ghost g = field_trees(f@);
    match &c.contract {
        Some(k) => put_member(&mut f, "contract", contract_value(k)),
        None => {},
    }
    assert(field_trees(f@) =~= g + (match c.contract { Some(k) => seq![("contract"@, contract_tree(k))], None => Seq::empty() }));
    assert(field_trees(f@) =~= card_members(*c));
    let r = JsonValue::Object(f);
    r
}

impl Fact {
    /// The canonical JSON value of this fact.
    pub fn wire(&self) -> (r: JsonValue)
        ensures
            tree(r) == fact_tree(*self),
    {
        let mut f: Vec<(String, JsonValue)> = Vec::new();
        assert(field_trees(f@) =~= Seq::<(Seq<char>, JsonTree)>::empty());
        match self {
            Fact::Card(c) => {
                let r = card_value(c);
                assert(card_tree(*c) == fact_tree(*self));
                return r;
            },
            Fact::Policy { id, decision, applies_to, description } => {
                put_member(&mut f, "appliesTo", texts_value(applies_to));
                put_member(&mut f, "decision", text_value(decision.as_str()));
                put_member(&mut f, "id", text_value(id.as_str()));
                let ghost a = field_trees(f@);
                match description {
                    Some(x) => put_member(&mut f, "description", text_value(x.as_str())),
                    None => {},
                }
                assert(field_trees(f@) =~= a + opt_member("description"@, *description));
            },
            Fact::Effect(e) => {
                put_member(&mut f, "action", opt_value(&e.action));
                put_member(&mut f, "confidence", text_value(e.confidence.as_str()));
                put_member(&mut f, "kind", text_value(e.kind.as_str()));
                put_member(&mut f, "occurrence", JsonValue::Number(JsonNumber::Unsigned(e.occurrence as u64)));
                put_member(&mut f, "operation", text_value(e.operation.as_str()));
                let mut res: Vec<(String, JsonValue)> = Vec::new();
                assert(field_trees(res@) =~= Seq::<(Seq<char>, JsonTree)>::empty());
                put_member(&mut res, "id", text_value(e.resource.as_str()));
                put_member(&mut res, "kind", text_value(e.resource_kind.as_str()));
                assert(field_trees(res@) =~= seq![("id"@, text_tree(e.resource@)), ("kind"@, text_tree(e.resource_kind@))]);
                let rv = JsonValue::Object(res);
                assert(tree(rv) == JsonTree::Object(seq![("id"@, text_tree(e.resource@)), ("kind"@, text_tree(e.resource_kind@))]));
                put_member(&mut f, "resource", rv);
                put_member(&mut f, "field", opt_value(&e.field));
            },
            Fact::Edge(e) => {
                put_member(&mut f, "confidence", text_value(e.confidence.as_str()));
                put_member(&mut f, "from", text_value(e.from.as_str()));
                put_member(&mut f, "occurrence", JsonValue::Number(JsonNumber::Unsigned(e.occurrence as u64)));
                put_member(&mut f, "relation", text_value(e.relation.as_str()));
                put_member(&mut f, "to", text_value(e.to.as_str()));
            },
            Fact::Scenario { id, summary, covers } => {
                put_member(&mut f, "covers", texts_value(covers));
                put_member(&mut f, "id", text_value(id.as_str()));
                put_member(&mut f, "summary", text_value(summary.as_str()));
            },
            Fact::Binding { id, target } => {
                put_member(&mut f, "id", text_value(id.as_str()));
                put_member(&mut f, "target", text_value(target.as_str()));
            },
        }
        assert(field_trees(f@) =~= fact_members(*self));
        let r = JsonValue::Object(f);
        r
    }

    /// The exact canonical JSON text of this fact: compact, members in
    /// byte order of their names.
    pub fn json(&self) -> (r: String)
        ensures
            r@ == rendered_json(fact_tree(*self)),
    {
        let v = self.wire();
        render_json(&v)
    }
}

// ---------------------------------------------------------------------
// The Markdown projection

/// Texts joined by `, `.
pub open spec fn comma_joined(parts: Seq<Seq<char>>) -> Seq<char>
    decreases parts.len(),
{
    if parts.len() == 0 {
        Seq::empty()
    } else if parts.len() == 1 {
        parts[0]
    } else {
        comma_joined(parts.drop_last()) + ", "@ + parts.last()
    }
}

/// One indented `label: value` line.
pub open spec fn labeled(label: Seq<char>, v: Seq<char>) -> Seq<char> {
    "  "@ + label + ": "@ + v
}

/// The line of an optional value.
pub open spec fn opt_line(label: Seq<char>, t: Option<String>) -> Seq<Seq<char>> {
    match t {
        Some(x) => seq![labeled(label, x@)],
        None => Seq::empty(),
    }
}

/// The line of a non-empty list, its members joined by `, `.
pub open spec fn list_line(label: Seq<char>, s: Seq<String>) -> Seq<Seq<char>> {
    if s.len() > 0 { seq![labeled(label, comma_joined(texts(s)))] } else { Seq::empty() }
}

/// One field row: `  label name: type`, then ` (required)` when it is.
pub open spec fn field_line(label: Seq<char>, f: WireField) -> Seq<char> {
    "  "@ + label + " "@ + f.name@ + ": "@ + spell_of(f.ty) + if f.required { " (required)"@ } else { Seq::empty() }
}

/// The lines of field rows.
pub open spec fn field_lines(label: Seq<char>, fs: Seq<WireField>) -> Seq<Seq<char>> {
    Seq::new(fs.len(), |i: int| field_line(label, fs[i]))
}

/// One enum value line, with its description in brackets.
pub open spec fn value_line(v: (String, Option<String>)) -> Seq<char> {
    match v.1 {
        Some(d) => labeled("value"@, v.0@ + " ("@ + d@ + ")"@),
        None => labeled("value"@, v.0@),
    }
}

/// The Markdown lines of a contract.
pub open spec fn contract_lines(c: Option<Contract>) -> Seq<Seq<char>> {
    match c {
        None => Seq::empty(),
        Some(Contract::Scalar { base }) => seq![labeled("base"@, base@)],
        Some(Contract::Enum { values }) => Seq::new(values@.len(), |i: int| value_line(values@[i])),
        Some(Contract::Fields { fields, identity }) => field_lines("field"@, fields@) + list_line("identity"@, identity@),
        Some(Contract::Command { input, effects }) => field_lines("input"@, input@) + list_line("effects"@, effects@),
        Some(Contract::Query { reads, returns }) => list_line("reads"@, reads@) + match returns {
            Some(t) => seq![labeled("returns"@, spell_of(t))],
            None => Seq::empty(),
        },
        Some(Contract::Policy { applies_to, decision }) => seq![labeled("decision"@, decision@)]
            + list_line("applies to"@, applies_to@),
        Some(Contract::Event { payload }) => field_lines("payload"@, payload@),
        Some(Contract::Effect { operation, entity, emits }) => seq![labeled("operation"@, operation@),
            labeled("entity"@, entity@)] + list_line("emits"@, emits@),
        Some(Contract::Endpoint { invokes, method, path }) => seq![labeled("endpoint"@, method@ + " "@ + path@),
            labeled("invokes"@, invokes@)],
        Some(Contract::Scenario { covers, summary }) => seq![labeled("summary"@, summary@)] + list_line("covers"@, covers@),
        Some(Contract::Binding { target }) => seq![labeled("target"@, target@)],
    }
}

/// The Markdown lines of a fact; the first line carries the fact.
pub open spec fn fact_lines(f: Fact) -> Seq<Seq<char>> {
    match f {
        Fact::Card(c) => seq!["- "@ + c.qualified@ + " ("@ + c.kind@ + ")"@] + opt_line("subkind"@, c.subkind)
            + opt_line("module"@, c.module)
            + (match c.version { Some(v) => seq![labeled("version"@, decimal(v as nat))], None => Seq::empty() })
            + opt_line("visibility"@, c.visibility) + opt_line("portability"@, c.portability)
            + list_line("derived from"@, c.derived_from@) + opt_line("description"@, c.description)
            + contract_lines(c.contract),
        Fact::Policy { id, decision, applies_to, description } => seq!["- "@ + id@ + " -> "@ + decision@]
            + list_line("applies to"@, applies_to@) + opt_line("description"@, description),
        Fact::Effect(e) => seq!["- "@ + e.kind@ + " "@ + (match e.action { Some(a) => "["@ + a@ + "] "@, None => Seq::empty() })
            + e.operation@ + " -> "@ + e.resource_kind@ + ":"@
            + (match e.field { Some(x) => e.resource@ + "#"@ + x@, None => e.resource@ }) + " ("@ + e.confidence@ + ")"@],
        Fact::Edge(e) => seq!["- "@ + e.relation@ + " "@ + e.from@ + " -> "@ + e.to@ + " ("@ + e.confidence@ + ")"@],
        Fact::Scenario { id, summary, covers } => seq!["- "@ + id@ + ": "@ + summary@] + list_line("covers"@, covers@),
        Fact::Binding { id, target } => seq!["- "@ + id@ + " -> "@ + target@],
    }
}

pub(crate) fn comma_join(s: &Vec<String>) -> (r: String)
    ensures
        r@ == comma_joined(texts(s@)),
{
    proof { reveal_strlit(", "); }
    let ghost all = texts(s@);
    let mut out = String::new();
    let mut i: usize = 0;
    assert(all.take(0) =~= Seq::<Seq<char>>::empty());
    while i < s.len()
        invariant
            all == texts(s@),
            i <= s@.len(),
            out@ == comma_joined(all.take(i as int)),
        decreases s@.len() - i,
    {
        proof {
            assert(all.take(i + 1).drop_last() =~= all.take(i as int));
            assert(all.take(i + 1).last() == s@[i as int]@);
        }
        if i > 0 {
            out.append(", ");
        }
        out.append(s[i].as_str());
        proof {
            if i == 0 {
                assert(all.take(1) =~= seq![s@[0]@]);
                assert(out@ =~= comma_joined(all.take(1)));
            }
        }
        i = i + 1;
    }
    assert(all.take(s@.len() as int) =~= all);
    out
}

fn labeled_text(label: &str, v: &str) -> (r: String)
    ensures
        r@ == labeled(label@, v@),
{
    proof {
        reveal_strlit("  ");
        reveal_strlit(": ");
    }
    let mut out = "  ".to_owned();
    out.append(label);
    out.append(": ");
    out.append(v);
    out
}

pub(crate) fn push_line(lines: &mut Vec<String>, line: String)
    ensures
        texts(final(lines)@) == texts(old(lines)@).push(line@),
{
    let ghost before = texts(lines@);
    lines.push(line);
    assert(texts(lines@) =~= before.push(lines@.last()@));
}

fn push_opt_line(lines: &mut Vec<String>, label: &str, t: &Option<String>)
    ensures
        texts(final(lines)@) == texts(old(lines)@) + opt_line(label@, *t),
{
    let ghost before = texts(lines@);
    match t {
        Some(x) => push_line(lines, labeled_text(label, x.as_str())),
        None => {},
    }
    assert(texts(lines@) =~= before + opt_line(label@, *t));
}

fn push_list_line(lines: &mut Vec<String>, label: &str, s: &Vec<String>)
    ensures
        texts(final(lines)@) == texts(old(lines)@) + list_line(label@, s@),
{
    let ghost before = texts(lines@);
    if s.len() > 0 {
        let joined_text = comma_join(s);
        push_line(lines, labeled_text(label, joined_text.as_str()));
    }
    assert(texts(lines@) =~= before + list_line(label@, s@));
}

fn push_field_lines(lines: &mut Vec<String>, label: &str, fs: &Vec<WireField>)
    ensures
        texts(final(lines)@) == texts(old(lines)@) + field_lines(label@, fs@),
{
    proof {
        reveal_strlit("  ");
        reveal_strlit(" ");
        reveal_strlit(": ");
        reveal_strlit(" (required)");
    }
    let ghost start = texts(lines@);
    let mut i: usize = 0;
    while i < fs.len()
        invariant
            i <= fs@.len(),
            texts(lines@) == start + field_lines(label@, fs@.take(i as int)),
        decreases fs@.len() - i,
    {
        let f = &fs[i];
        let mut line = "  ".to_owned();
        line.append(label);
        line.append(" ");
        line.append(f.name.as_str());
        line.append(": ");
        let t = f.ty.spell();
        line.append(t.as_str());
        if f.required {
            line.append(" (required)");
        }
        assert(line@ =~= field_line(label@, *f));
        let ghost before = texts(lines@);
        push_line(lines, line);
        assert(field_lines(label@, fs@.take(i + 1)) =~= field_lines(label@, fs@.take(i as int)).push(field_line(label@, *f)));
        assert(texts(lines@) =~= start + field_lines(label@, fs@.take(i + 1)));
        i = i + 1;
    }
    assert(fs@.take(fs@.len() as int) =~= fs@);
}

fn push_contract_lines(lines: &mut Vec<String>, c: &Option<Contract>)
    ensures
        texts(final(lines)@) == texts(old(lines)@) + contract_lines(*c),
{
    proof {
        reveal_strlit(" (");
        reveal_strlit(")");
        reveal_strlit(" ");
    }
    let ghost start = texts(lines@);
    match c {
        None => {},
        Some(Contract::Scalar { base }) => push_line(lines, labeled_text("base", base.as_str())),
        Some(Contract::Enum { values }) => {
            let mut i: usize = 0;
            while i < values.len()
                invariant
                    i <= values@.len(),
                    texts(lines@) == start + Seq::new(i as nat, |k: int| value_line(values@[k])),
                decreases values@.len() - i,
            {
                let v = &values[i];
                let line = match &v.1 {
                    Some(d) => {
                        let mut t = v.0.as_str().to_owned();
                        t.append(" (");
                        t.append(d.as_str());
                        t.append(")");
                        labeled_text("value", t.as_str())
                    },
                    None => labeled_text("value", v.0.as_str()),
                };
                assert(line@ =~= value_line(*v));
                push_line(lines, line);
                assert(Seq::new((i + 1) as nat, |k: int| value_line(values@[k]))
                    =~= Seq::new(i as nat, |k: int| value_line(values@[k])).push(value_line(*v)));
                i = i + 1;
            }
        },
        Some(Contract::Fields { fields, identity }) => {
            push_field_lines(lines, "field", fields);
            push_list_line(lines, "identity", identity);
        },
        Some(Contract::Command { input, effects }) => {
            push_field_lines(lines, "input", input);
            push_list_line(lines, "effects", effects);
        },
        Some(Contract::Query { reads, returns }) => {
            push_list_line(lines, "reads", reads);
            match returns {
                Some(t) => {
                    let spelled = t.spell();
                    push_line(lines, labeled_text("returns", spelled.as_str()));
                },
                None => {},
            }
        },
        Some(Contract::Policy { applies_to, decision }) => {
            push_line(lines, labeled_text("decision", decision.as_str()));
            push_list_line(lines, "applies to", applies_to);
        },
        Some(Contract::Event { payload }) => push_field_lines(lines, "payload", payload),
        Some(Contract::Effect { operation, entity, emits }) => {
            push_line(lines, labeled_text("operation", operation.as_str()));
            push_line(lines, labeled_text("entity", entity.as_str()));
            push_list_line(lines, "emits", emits);
        },
        Some(Contract::Endpoint { invokes, method, path }) => {
            let mut t = method.as_str().to_owned();
            t.append(" ");
            t.append(path.as_str());
            push_line(lines, labeled_text("endpoint", t.as_str()));
            push_line(lines, labeled_text("invokes", invokes.as_str()));
        },
        Some(Contract::Scenario { covers, summary }) => {
            push_line(lines, labeled_text("summary", summary.as_str()));
            push_list_line(lines, "covers", covers);
        },
        Some(Contract::Binding { target }) => push_line(lines, labeled_text("target", target.as_str())),
    }
    assert(texts(lines@) =~= start + contract_lines(*c));
}

impl Fact {
    /// The deterministic Markdown lines of this fact; the first line
    /// carries the fact.
    pub fn markdown(&self) -> (r: Vec<String>)
        ensures
            texts(r@) == fact_lines(*self),
    {
        proof {
            reveal_strlit("- ");
            reveal_strlit(" (");
            reveal_strlit(")");
            reveal_strlit(" -> ");
            reveal_strlit(" ");
            reveal_strlit(": ");
            reveal_strlit("[");
            reveal_strlit("] ");
            reveal_strlit(":");
            reveal_strlit("#");
        }
        let mut lines: Vec<String> = Vec::new();
        assert(texts(lines@) =~= Seq::<Seq<char>>::empty());
        match self {
            Fact::Card(c) => {
                let mut head = "- ".to_owned();
                head.append(c.qualified.as_str());
                head.append(" (");
                head.append(c.kind.as_str());
                head.append(")");
                assert(head@ =~= "- "@ + c.qualified@ + " ("@ + c.kind@ + ")"@);
                push_line(&mut lines, head);
                push_opt_line(&mut lines, "subkind", &c.subkind);
                push_opt_line(&mut lines, "module", &c.module);
                let ghost before = texts(lines@);
                match c.version {
                    Some(v) => {
                        let t = decimal_text(v);
                        push_line(&mut lines, labeled_text("version", t.as_str()));
                    },
                    None => {},
                }
                assert(texts(lines@) =~= before
                    + (match c.version { Some(v) => seq![labeled("version"@, decimal(v as nat))], None => Seq::empty() }));
                push_opt_line(&mut lines, "visibility", &c.visibility);
                push_opt_line(&mut lines, "portability", &c.portability);
                push_list_line(&mut lines, "derived from", &c.derived_from);
                push_opt_line(&mut lines, "description", &c.description);
                push_contract_lines(&mut lines, &c.contract);
                assert(texts(lines@) =~= fact_lines(*self));
            },
            Fact::Policy { id, decision, applies_to, description } => {
                let mut head = "- ".to_owned();
                head.append(id.as_str());
                head.append(" -> ");
                head.append(decision.as_str());
                assert(head@ =~= "- "@ + id@ + " -> "@ + decision@);
                push_line(&mut lines, head);
                push_list_line(&mut lines, "applies to", applies_to);
                push_opt_line(&mut lines, "description", description);
                assert(texts(lines@) =~= fact_lines(*self));
            },
            Fact::Effect(e) => {
                let mut head = "- ".to_owned();
                head.append(e.kind.as_str());
                head.append(" ");
                let ghost h0 = head@;
                match &e.action {
                    Some(a) => {
                        head.append("[");
                        head.append(a.as_str());
                        head.append("] ");
                    },
                    None => {},
                }
                assert(head@ =~= h0 + (match e.action { Some(a) => "["@ + a@ + "] "@, None => Seq::empty() }));
                head.append(e.operation.as_str());
                head.append(" -> ");
                head.append(e.resource_kind.as_str());
                head.append(":");
                let ghost h1 = head@;
                head.append(e.resource.as_str());
                match &e.field {
                    Some(x) => {
                        head.append("#");
                        head.append(x.as_str());
                    },
                    None => {},
                }
                assert(head@ =~= h1 + (match e.field { Some(x) => e.resource@ + "#"@ + x@, None => e.resource@ }));
                head.append(" (");
                head.append(e.confidence.as_str());
                head.append(")");
                assert(head@ =~= fact_lines(*self)[0]);
                push_line(&mut lines, head);
                assert(texts(lines@) =~= fact_lines(*self));
            },
            Fact::Edge(e) => {
                let mut head = "- ".to_owned();
                head.append(e.relation.as_str());
                head.append(" ");
                head.append(e.from.as_str());
                head.append(" -> ");
                head.append(e.to.as_str());
                head.append(" (");
                head.append(e.confidence.as_str());
                head.append(")");
                assert(head@ =~= fact_lines(*self)[0]);
                push_line(&mut lines, head);
                assert(texts(lines@) =~= fact_lines(*self));
            },
            Fact::Scenario { id, summary, covers } => {
                let mut head = "- ".to_owned();
                head.append(id.as_str());
                head.append(": ");
                head.append(summary.as_str());
                assert(head@ =~= "- "@ + id@ + ": "@ + summary@);
                push_line(&mut lines, head);
                push_list_line(&mut lines, "covers", covers);
                assert(texts(lines@) =~= fact_lines(*self));
            },
            Fact::Binding { id, target } => {
                let mut head = "- ".to_owned();
                head.append(id.as_str());
                head.append(" -> ");
                head.append(target.as_str());
                assert(head@ =~= fact_lines(*self)[0]);
                push_line(&mut lines, head);
                assert(texts(lines@) =~= fact_lines(*self));
            },
        }
        assert(texts(lines@) =~= fact_lines(*self));
        lines
    }
}

// ---------------------------------------------------------------------
// Manifest and gap rows

/// The canonical form of one manifest row: an excluded row carries its
/// reason, an included row its tokens.
pub open spec fn manifest_row_tree(row: super::select::ManifestRow) -> JsonTree {
    JsonTree::Object(seq![("id"@, JsonTree::Text(row.id@)), ("section"@, JsonTree::Text(row.section@))]
        + match row.reason {
            Some(_) => seq![("reason"@, JsonTree::Text("budget"@))],
            None => seq![("tokens"@, count_tree(row.tokens))],
        })
}

/// One manifest row's canonical JSON text.
pub fn manifest_row_json(row: &super::select::ManifestRow) -> (r: String)
    ensures
        r@ == rendered_json(manifest_row_tree(*row)),
{
    let v = manifest_row_value(row);
    render_json(&v)
}

/// One manifest row's canonical JSON value.
pub(crate) fn manifest_row_value(row: &super::select::ManifestRow) -> (r: JsonValue)
    ensures
        tree(r) == manifest_row_tree(*row),
{
    let mut f: Vec<(String, JsonValue)> = Vec::new();
    assert(field_trees(f@) =~= Seq::<(Seq<char>, JsonTree)>::empty());
    put_member(&mut f, "id", text_value(row.id.as_str()));
    put_member(&mut f, "section", text_value(row.section.as_str()));
    match row.reason {
        Some(reason) => put_member(&mut f, "reason", text_value(reason.as_str())),
        None => put_member(&mut f, "tokens", JsonValue::Number(JsonNumber::Unsigned(row.tokens))),
    }
    let ghost want = seq![("id"@, JsonTree::Text(row.id@)), ("section"@, JsonTree::Text(row.section@))]
        + match row.reason {
            Some(_) => seq![("reason"@, JsonTree::Text("budget"@))],
            None => seq![("tokens"@, count_tree(row.tokens))],
        };
    assert(field_trees(f@) =~= want);
    JsonValue::Object(f)
}

/// The canonical form of one gap row: the gap, then its symbols as
/// bounded tokens when there are any.
pub open spec fn gap_tree(g: super::select::Gap) -> JsonTree {
    JsonTree::Object(seq![("gap"@, JsonTree::Text(g.gap@))]
        + if g.symbols@.len() > 0 {
            seq![("symbols"@, JsonTree::Array(Seq::new(g.symbols@.len(),
                |i: int| JsonTree::Text(crate::text::bounded_prefix(g.symbols@[i]@, 256)))))]
        } else {
            Seq::empty()
        })
}

/// One gap row's canonical JSON text.
pub fn gap_json(g: &super::select::Gap) -> (r: String)
    ensures
        r@ == rendered_json(gap_tree(*g)),
{
    let v = gap_value(g);
    render_json(&v)
}

/// One gap row's canonical JSON value.
pub(crate) fn gap_value(g: &super::select::Gap) -> (r: JsonValue)
    ensures
        tree(r) == gap_tree(*g),
{
    let mut f: Vec<(String, JsonValue)> = Vec::new();
    assert(field_trees(f@) =~= Seq::<(Seq<char>, JsonTree)>::empty());
    put_member(&mut f, "gap", text_value(g.gap.as_str()));
    if g.symbols.len() > 0 {
        let mut items: Vec<JsonValue> = Vec::new();
        let mut i: usize = 0;
        while i < g.symbols.len()
            invariant
                i <= g.symbols@.len(),
                items@.len() == i,
                forall|k: int| 0 <= k < i ==> tree(#[trigger] items@[k])
                    == JsonTree::Text(crate::text::bounded_prefix(g.symbols@[k]@, 256)),
            decreases g.symbols@.len() - i,
        {
            let t = crate::text::bound_text(g.symbols[i].as_str(), 256);
            items.push(JsonValue::Text(t));
            i = i + 1;
        }
        let list = JsonValue::Array(items);
        assert(trees(items@) =~= Seq::new(g.symbols@.len(),
            |k: int| JsonTree::Text(crate::text::bounded_prefix(g.symbols@[k]@, 256))));
        put_member(&mut f, "symbols", list);
    }
    let ghost want = seq![("gap"@, JsonTree::Text(g.gap@))]
        + if g.symbols@.len() > 0 {
            seq![("symbols"@, JsonTree::Array(Seq::new(g.symbols@.len(),
                |k: int| JsonTree::Text(crate::text::bounded_prefix(g.symbols@[k]@, 256)))))]
        } else {
            Seq::empty()
        };
    assert(field_trees(f@) =~= want);
    JsonValue::Object(f)
}

} // verus!
