//! One finished context capsule and its two projections: the canonical
//! JSON payload and the Markdown document. Both render the same capsule,
//! so the same capsule always gives the same bytes; sections keep their
//! protection order and the manifest its walk order.

use vstd::prelude::*;
use vstd::string::StringExecFns;
use crate::diagnostics::item::Position;
use crate::json::{JsonNumber, JsonTree, JsonValue, NumberTree, field_trees, lemma_object_tree, push_entry, render_json,
    rendered_json, tree, trees};
use crate::text::{decimal, push_decimal};
use super::model::{Fact, fact_tree, gap_tree, manifest_row_tree, put_member, text_value, gap_value, manifest_row_value,
    count_tree, texts, comma_joined, comma_join, fact_lines, push_line, decimal_text};
use super::select::{Gap, ManifestRow, Walk};

verus! {

/// One declaration-span row of the opt-in evidence sidecar: a fact id
/// and its logical project-relative span.
#[derive(Clone, Debug, PartialEq, Eq)]
pub struct SpanRow {
    pub id: String,
    pub path: String,
    pub start: Position,
    pub end: Position,
}

/// One finished capsule: the single product both projections render.
#[derive(Debug)]
pub struct Capsule {
    project: Option<String>,
    model_version: String,
    ir_digest: String,
    mode: String,
    budget: u64,
    roots: Vec<String>,
    sections: Vec<(String, Vec<Fact>)>,
    manifest: Vec<ManifestRow>,
    gaps: Vec<Gap>,
    estimated: u64,
    minimum_required: u64,
    fits: bool,
    complete: bool,
    spans: Vec<SpanRow>,
}

/// The contract-level content of a capsule.
pub struct CapsuleView {
    pub project: Option<Seq<char>>,
    pub model_version: Seq<char>,
    pub ir_digest: Seq<char>,
    pub mode: Seq<char>,
    pub budget: u64,
    pub roots: Seq<Seq<char>>,
    pub sections: Seq<(Seq<char>, Seq<Fact>)>,
    pub manifest: Seq<ManifestRow>,
    pub gaps: Seq<Gap>,
    pub estimated: u64,
    pub minimum_required: u64,
    pub fits: bool,
    pub complete: bool,
    pub spans: Seq<SpanRow>,
}

/// The sections' names and facts.
pub open spec fn section_views(s: Seq<(String, Vec<Fact>)>) -> Seq<(Seq<char>, Seq<Fact>)> {
    s.map_values(|x: (String, Vec<Fact>)| (x.0@, x.1@))
}

impl View for Capsule {
    type V = CapsuleView;

    closed spec fn view(&self) -> CapsuleView {
        CapsuleView {
            project: match self.project { Some(p) => Some(p@), None => None },
            model_version: self.model_version@,
            ir_digest: self.ir_digest@,
            mode: self.mode@,
            budget: self.budget,
            roots: texts(self.roots@),
            sections: section_views(self.sections@),
            manifest: self.manifest@,
            gaps: self.gaps@,
            estimated: self.estimated,
            minimum_required: self.minimum_required,
            fits: self.fits,
            complete: self.complete,
            spans: self.spans@,
        }
    }
}

/// The manifest rows of included facts, in walk order.
pub open spec fn included_rows(m: Seq<ManifestRow>) -> Seq<ManifestRow>
    decreases m.len(),
{
    if m.len() == 0 {
        Seq::empty()
    } else if m.last().reason is None {
        included_rows(m.drop_last()).push(m.last())
    } else {
        included_rows(m.drop_last())
    }
}

/// The manifest rows of excluded facts, in walk order.
pub open spec fn excluded_rows(m: Seq<ManifestRow>) -> Seq<ManifestRow>
    decreases m.len(),
{
    if m.len() == 0 {
        Seq::empty()
    } else if m.last().reason is Some {
        excluded_rows(m.drop_last()).push(m.last())
    } else {
        excluded_rows(m.drop_last())
    }
}

/// Every manifest row is either included or excluded: the two counts
/// add up to the candidates, and nothing is excluded exactly when every
/// row is included.
pub proof fn lemma_manifest_partition(m: Seq<ManifestRow>)
    ensures
        included_rows(m).len() + excluded_rows(m).len() == m.len(),
        excluded_rows(m).len() == 0 <==> forall|k: int| 0 <= k < m.len() ==> (#[trigger] m[k]).reason is None,
        included_rows(m).len() == m.len() <==> excluded_rows(m).len() == 0,
    decreases m.len(),
{
    if m.len() > 0 {
        let p = m.drop_last();
        lemma_manifest_partition(p);
        assert forall|k: int| 0 <= k < p.len() implies p[k] == #[trigger] m[k] by {}
        if excluded_rows(m).len() == 0 {
            assert forall|k: int| 0 <= k < m.len() implies (#[trigger] m[k]).reason is None by {
                if k < p.len() {
                    assert(p[k] == m[k]);
                }
            }
        }
        if forall|k: int| 0 <= k < m.len() ==> (#[trigger] m[k]).reason is None {
            assert(m.last().reason is None);
            assert forall|k: int| 0 <= k < p.len() implies (#[trigger] p[k]).reason is None by {
                assert(p[k] == m[k]);
            }
        }
    }
}

// ---------------------------------------------------------------------
// The canonical JSON projection

/// One position `{byte, column, line}`.
pub open spec fn position_tree(p: Position) -> JsonTree {
    JsonTree::Object(seq![
        ("byte"@, count_tree(p.byte as u64)),
        ("column"@, count_tree(p.column as u64)),
        ("line"@, count_tree(p.line as u64)),
    ])
}

/// One span row `{id, span: {end, path, start}}`.
pub open spec fn span_tree(s: SpanRow) -> JsonTree {
    JsonTree::Object(seq![
        ("id"@, JsonTree::Text(s.id@)),
        ("span"@, JsonTree::Object(seq![
            ("end"@, position_tree(s.end)),
            ("path"@, JsonTree::Text(s.path@)),
            ("start"@, position_tree(s.start)),
        ])),
    ])
}

/// Manifest rows in order.
pub open spec fn rows_tree(m: Seq<ManifestRow>) -> JsonTree {
    JsonTree::Array(m.map_values(|r: ManifestRow| manifest_row_tree(r)))
}

/// The sections object: each section's facts in order.
pub open spec fn sections_tree(s: Seq<(Seq<char>, Seq<Fact>)>) -> JsonTree {
    JsonTree::Object(s.map_values(|x: (Seq<char>, Seq<Fact>)|
        (x.0, JsonTree::Array(x.1.map_values(|f: Fact| fact_tree(f))))))
}

/// The members of the capsule payload, in byte order of their names;
/// `spans` appears only when the sidecar holds rows.
pub open spec fn capsule_members(c: CapsuleView) -> Seq<(Seq<char>, JsonTree)> {
    seq![
        ("budget"@, JsonTree::Object(seq![
            ("estimated"@, count_tree(c.estimated)),
            ("fits"@, JsonTree::Bool(c.fits)),
            ("limit"@, count_tree(c.budget)),
            ("minimumRequired"@, count_tree(c.minimum_required)),
        ])),
        ("complete"@, JsonTree::Bool(c.complete)),
        ("coverage"@, JsonTree::Object(seq![
            ("candidates"@, count_tree(c.manifest.len() as u64)),
            ("excluded"@, count_tree(excluded_rows(c.manifest).len() as u64)),
            ("included"@, count_tree(included_rows(c.manifest).len() as u64)),
        ])),
        ("estimator"@, JsonTree::Object(seq![
            ("digest"@, JsonTree::Text(crate::digest::digest_text(vstd::utf8::encode_utf8(super::estimate::SPEC@)))),
            ("identity"@, JsonTree::Text(super::estimate::IDENTITY@)),
            ("version"@, JsonTree::Text(super::estimate::VERSION@)),
        ])),
        ("gaps"@, JsonTree::Array(c.gaps.map_values(|g: Gap| gap_tree(g)))),
        ("identity"@, JsonTree::Text(super::version::IDENTITY@)),
        ("irDigest"@, JsonTree::Text(c.ir_digest)),
        ("manifest"@, JsonTree::Object(seq![
            ("excluded"@, rows_tree(excluded_rows(c.manifest))),
            ("included"@, rows_tree(included_rows(c.manifest))),
        ])),
        ("mode"@, JsonTree::Text(c.mode)),
        ("modelVersion"@, JsonTree::Text(c.model_version)),
        ("project"@, match c.project {
            Some(p) => JsonTree::Text(p),
            None => JsonTree::Null,
        }),
        ("roots"@, JsonTree::Array(c.roots.map_values(|t: Seq<char>| JsonTree::Text(t)))),
        ("schemaVersion"@, JsonTree::Text(super::version::SCHEMA_VERSION@)),
        ("sections"@, sections_tree(c.sections)),
    ] + if c.spans.len() > 0 {
        seq![("spans"@, JsonTree::Array(c.spans.map_values(|s: SpanRow| span_tree(s))))]
    } else {
        Seq::empty()
    }
}

/// The canonical content of a capsule payload.
pub open spec fn capsule_tree(c: CapsuleView) -> JsonTree {
    JsonTree::Object(capsule_members(c))
}

proof fn lemma_trees_push(s: Seq<JsonValue>, x: JsonValue)
    ensures
        trees(s.push(x)) == trees(s).push(tree(x)),
{
    assert forall|k: int| 0 <= k < s.len() + 1 implies #[trigger] trees(s.push(x))[k] == trees(s).push(tree(x))[k] by {
        if k < s.len() {
            assert(s.push(x)[k] == s[k]);
        }
    }
    assert(trees(s.push(x)) =~= trees(s).push(tree(x)));
}

fn count_value(n: u64) -> (r: JsonValue)
    ensures
        tree(r) == count_tree(n),
{
    JsonValue::Number(JsonNumber::Unsigned(n))
}

fn position_value(p: Position) -> (r: JsonValue)
    ensures
        tree(r) == position_tree(p),
{
    let mut f: Vec<(String, JsonValue)> = Vec::new();
    assert(field_trees(f@) =~= Seq::<(Seq<char>, JsonTree)>::empty());
    put_member(&mut f, "byte", count_value(p.byte as u64));
    put_member(&mut f, "column", count_value(p.column as u64));
    put_member(&mut f, "line", count_value(p.line as u64));
    assert(field_trees(f@) =~= seq![
        ("byte"@, count_tree(p.byte as u64)),
        ("column"@, count_tree(p.column as u64)),
        ("line"@, count_tree(p.line as u64)),
    ]);
    JsonValue::Object(f)
}

fn span_value(s: &SpanRow) -> (r: JsonValue)
    ensures
        tree(r) == span_tree(*s),
{
    let mut inner: Vec<(String, JsonValue)> = Vec::new();
    assert(field_trees(inner@) =~= Seq::<(Seq<char>, JsonTree)>::empty());
    put_member(&mut inner, "end", position_value(s.end));
    put_member(&mut inner, "path", text_value(s.path.as_str()));
    put_member(&mut inner, "start", position_value(s.start));
    let ghost want_inner = seq![
        ("end"@, position_tree(s.end)),
        ("path"@, JsonTree::Text(s.path@)),
        ("start"@, position_tree(s.start)),
    ];
    assert(field_trees(inner@) =~= want_inner);
    let mut f: Vec<(String, JsonValue)> = Vec::new();
    assert(field_trees(f@) =~= Seq::<(Seq<char>, JsonTree)>::empty());
    put_member(&mut f, "id", text_value(s.id.as_str()));
    put_member(&mut f, "span", JsonValue::Object(inner));
    assert(field_trees(f@) =~= seq![("id"@, JsonTree::Text(s.id@)), ("span"@, JsonTree::Object(want_inner))]);
    JsonValue::Object(f)
}

/// The included and excluded rows as JSON values, and their counts.
fn split_rows(m: &Vec<ManifestRow>) -> (r: (JsonValue, JsonValue, usize, usize))
    ensures
        tree(r.0) == rows_tree(included_rows(m@)),
        tree(r.1) == rows_tree(excluded_rows(m@)),
        r.2 == included_rows(m@).len(),
        r.3 == excluded_rows(m@).len(),
{
    let mut inc: Vec<JsonValue> = Vec::new();
    let mut exc: Vec<JsonValue> = Vec::new();
    let mut i: usize = 0;
    assert(m@.take(0) =~= Seq::<ManifestRow>::empty());
    assert(trees(inc@) =~= included_rows(m@.take(0)).map_values(|r: ManifestRow| manifest_row_tree(r)));
    assert(trees(exc@) =~= excluded_rows(m@.take(0)).map_values(|r: ManifestRow| manifest_row_tree(r)));
    while i < m.len()
        invariant
            i <= m@.len(),
            trees(inc@) == included_rows(m@.take(i as int)).map_values(|r: ManifestRow| manifest_row_tree(r)),
            trees(exc@) == excluded_rows(m@.take(i as int)).map_values(|r: ManifestRow| manifest_row_tree(r)),
        decreases m@.len() - i,
    {
        let ghost head = m@.take(i + 1);
        proof {
            assert(head.drop_last() =~= m@.take(i as int));
            assert(head.last() == m@[i as int]);
        }
        let v = manifest_row_value(&m[i]);
        if m[i].reason.is_none() {
            proof { lemma_trees_push(inc@, v); }
            inc.push(v);
            assert(trees(inc@) =~= included_rows(head).map_values(|r: ManifestRow| manifest_row_tree(r)));
            assert(trees(exc@) =~= excluded_rows(head).map_values(|r: ManifestRow| manifest_row_tree(r)));
        } else {
            proof { lemma_trees_push(exc@, v); }
            exc.push(v);
            assert(trees(inc@) =~= included_rows(head).map_values(|r: ManifestRow| manifest_row_tree(r)));
            assert(trees(exc@) =~= excluded_rows(head).map_values(|r: ManifestRow| manifest_row_tree(r)));
        }
        i = i + 1;
    }
    assert(m@.take(m@.len() as int) =~= m@);
    let ni = inc.len();
    let ne = exc.len();
    assert(trees(inc@).len() == inc@.len());
    assert(trees(exc@).len() == exc@.len());
    (JsonValue::Array(inc), JsonValue::Array(exc), ni, ne)
}

fn facts_value(fs: &Vec<Fact>) -> (r: JsonValue)
    ensures
        tree(r) == JsonTree::Array(fs@.map_values(|f: Fact| fact_tree(f))),
{
    let mut items: Vec<JsonValue> = Vec::new();
    let mut i: usize = 0;
    assert(trees(items@) =~= fs@.take(0).map_values(|f: Fact| fact_tree(f)));
    while i < fs.len()
        invariant
            i <= fs@.len(),
            trees(items@) == fs@.take(i as int).map_values(|f: Fact| fact_tree(f)),
        decreases fs@.len() - i,
    {
        let v = fs[i].wire();
        proof { lemma_trees_push(items@, v); }
        items.push(v);
        assert(trees(items@) =~= fs@.take(i + 1).map_values(|f: Fact| fact_tree(f)));
        i = i + 1;
    }
    assert(fs@.take(fs@.len() as int) =~= fs@);
    JsonValue::Array(items)
}

fn sections_value(s: &Vec<(String, Vec<Fact>)>) -> (r: JsonValue)
    ensures
        tree(r) == sections_tree(section_views(s@)),
{
    let ghost want = section_views(s@).map_values(|x: (Seq<char>, Seq<Fact>)|
        (x.0, JsonTree::Array(x.1.map_values(|f: Fact| fact_tree(f)))));
    let mut fields: Vec<(String, JsonValue)> = Vec::new();
    assert(field_trees(fields@) =~= want.take(0));
    let mut i: usize = 0;
    while i < s.len()
        invariant
            i <= s@.len(),
            fields@.len() == i,
            want == section_views(s@).map_values(|x: (Seq<char>, Seq<Fact>)|
                (x.0, JsonTree::Array(x.1.map_values(|f: Fact| fact_tree(f))))),
            field_trees(fields@) == want.take(i as int),
        decreases s@.len() - i,
    {
        let v = facts_value(&s[i].1);
        assert(section_views(s@)[i as int] == (s@[i as int].0@, s@[i as int].1@));
        push_entry(&mut fields, s[i].0.as_str(), v, Ghost(want));
        i = i + 1;
    }
    proof { lemma_object_tree(fields, want); }
    JsonValue::Object(fields)
}

fn gaps_value(gs: &Vec<Gap>) -> (r: JsonValue)
    ensures
        tree(r) == JsonTree::Array(gs@.map_values(|g: Gap| gap_tree(g))),
{
    let mut items: Vec<JsonValue> = Vec::new();
    let mut i: usize = 0;
    assert(trees(items@) =~= gs@.take(0).map_values(|g: Gap| gap_tree(g)));
    while i < gs.len()
        invariant
            i <= gs@.len(),
            trees(items@) == gs@.take(i as int).map_values(|g: Gap| gap_tree(g)),
        decreases gs@.len() - i,
    {
        let v = gap_value(&gs[i]);
        proof { lemma_trees_push(items@, v); }
        items.push(v);
        assert(trees(items@) =~= gs@.take(i + 1).map_values(|g: Gap| gap_tree(g)));
        i = i + 1;
    }
    assert(gs@.take(gs@.len() as int) =~= gs@);
    JsonValue::Array(items)
}

fn spans_value(ss: &Vec<SpanRow>) -> (r: JsonValue)
    ensures
        tree(r) == JsonTree::Array(ss@.map_values(|s: SpanRow| span_tree(s))),
{
    let mut items: Vec<JsonValue> = Vec::new();
    let mut i: usize = 0;
    assert(trees(items@) =~= ss@.take(0).map_values(|s: SpanRow| span_tree(s)));
    while i < ss.len()
        invariant
            i <= ss@.len(),
            trees(items@) == ss@.take(i as int).map_values(|s: SpanRow| span_tree(s)),
        decreases ss@.len() - i,
    {
        let v = span_value(&ss[i]);
        proof { lemma_trees_push(items@, v); }
        items.push(v);
        assert(trees(items@) =~= ss@.take(i + 1).map_values(|s: SpanRow| span_tree(s)));
        i = i + 1;
    }
    assert(ss@.take(ss@.len() as int) =~= ss@);
    JsonValue::Array(items)
}

fn roots_value(rs: &Vec<String>) -> (r: JsonValue)
    ensures
        tree(r) == JsonTree::Array(texts(rs@).map_values(|t: Seq<char>| JsonTree::Text(t))),
{
    let mut items: Vec<JsonValue> = Vec::new();
    let mut i: usize = 0;
    assert(trees(items@) =~= texts(rs@.take(0)).map_values(|t: Seq<char>| JsonTree::Text(t)));
    while i < rs.len()
        invariant
            i <= rs@.len(),
            trees(items@) == texts(rs@.take(i as int)).map_values(|t: Seq<char>| JsonTree::Text(t)),
        decreases rs@.len() - i,
    {
        let v = text_value(rs[i].as_str());
        proof { lemma_trees_push(items@, v); }
        items.push(v);
        assert(trees(items@) =~= texts(rs@.take(i + 1)).map_values(|t: Seq<char>| JsonTree::Text(t)));
        i = i + 1;
    }
    assert(rs@.take(rs@.len() as int) =~= rs@);
    JsonValue::Array(items)
}

fn object_of3(a: &str, va: JsonValue, b: &str, vb: JsonValue, c: &str, vc: JsonValue) -> (r: JsonValue)
    ensures
        tree(r) == JsonTree::Object(seq![(a@, tree(va)), (b@, tree(vb)), (c@, tree(vc))]),
{
    let ghost (ta, tb, tc) = (tree(va), tree(vb), tree(vc));
    let mut f: Vec<(String, JsonValue)> = Vec::new();
    assert(field_trees(f@) =~= Seq::<(Seq<char>, JsonTree)>::empty());
    put_member(&mut f, a, va);
    put_member(&mut f, b, vb);
    put_member(&mut f, c, vc);
    assert(field_trees(f@) =~= seq![(a@, ta), (b@, tb), (c@, tc)]);
    JsonValue::Object(f)
}

impl Capsule {
    /// The canonical JSON value of the capsule payload.
    pub fn wire(&self) -> (r: JsonValue)
        ensures
            tree(r) == capsule_tree(self@),
    {
        let ghost want = capsule_members(self@);
        let mut fields: Vec<(String, JsonValue)> = Vec::new();
        assert(field_trees(fields@) =~= want.take(0));

        let mut budget: Vec<(String, JsonValue)> = Vec::new();
        assert(field_trees(budget@) =~= Seq::<(Seq<char>, JsonTree)>::empty());
        put_member(&mut budget, "estimated", count_value(self.estimated));
        put_member(&mut budget, "fits", JsonValue::Bool(self.fits));
        put_member(&mut budget, "limit", count_value(self.budget));
        put_member(&mut budget, "minimumRequired", count_value(self.minimum_required));
        assert(field_trees(budget@) =~= seq![
            ("estimated"@, count_tree(self.estimated)),
            ("fits"@, JsonTree::Bool(self.fits)),
            ("limit"@, count_tree(self.budget)),
            ("minimumRequired"@, count_tree(self.minimum_required)),
        ]);
        push_entry(&mut fields, "budget", JsonValue::Object(budget), Ghost(want));
        push_entry(&mut fields, "complete", JsonValue::Bool(self.complete), Ghost(want));

        let (included, excluded, ni, ne) = split_rows(&self.manifest);
        let total = self.manifest.len();
        let coverage = object_of3("candidates", count_value(total as u64), "excluded", count_value(ne as u64),
            "included", count_value(ni as u64));
        push_entry(&mut fields, "coverage", coverage, Ghost(want));

        let d = super::estimate::digest();
        let estimator = object_of3("digest", text_value(d.as_str()), "identity", text_value(super::estimate::IDENTITY),
            "version", text_value(super::estimate::VERSION));
        push_entry(&mut fields, "estimator", estimator, Ghost(want));
        push_entry(&mut fields, "gaps", gaps_value(&self.gaps), Ghost(want));
        push_entry(&mut fields, "identity", text_value(super::version::IDENTITY), Ghost(want));
        push_entry(&mut fields, "irDigest", text_value(self.ir_digest.as_str()), Ghost(want));

        let ghost (ti, te) = (tree(included), tree(excluded));
        let mut manifest: Vec<(String, JsonValue)> = Vec::new();
        assert(field_trees(manifest@) =~= Seq::<(Seq<char>, JsonTree)>::empty());
        put_member(&mut manifest, "excluded", excluded);
        put_member(&mut manifest, "included", included);
        assert(field_trees(manifest@) =~= seq![("excluded"@, te), ("included"@, ti)]);
        push_entry(&mut fields, "manifest", JsonValue::Object(manifest), Ghost(want));
        push_entry(&mut fields, "mode", text_value(self.mode.as_str()), Ghost(want));
        push_entry(&mut fields, "modelVersion", text_value(self.model_version.as_str()), Ghost(want));
        let project = match &self.project {
            Some(p) => text_value(p.as_str()),
            None => JsonValue::Null,
        };
        push_entry(&mut fields, "project", project, Ghost(want));
        push_entry(&mut fields, "roots", roots_value(&self.roots), Ghost(want));
        push_entry(&mut fields, "schemaVersion", text_value(super::version::SCHEMA_VERSION), Ghost(want));
        push_entry(&mut fields, "sections", sections_value(&self.sections), Ghost(want));
        if self.spans.len() > 0 {
            push_entry(&mut fields, "spans", spans_value(&self.spans), Ghost(want));
        }
        proof { lemma_object_tree(fields, want); }
        JsonValue::Object(fields)
    }

    /// The canonical JSON payload text: the writer's compact output for
    /// the capsule's canonical content, without a trailing newline.
    pub fn to_canonical_json(&self) -> (r: String)
        ensures
            r@ == rendered_json(capsule_tree(self@)),
    {
        let v = self.wire();
        render_json(&v)
    }
}


impl Capsule {
    /// Assemble a capsule from its selected parts and the outcome of the
    /// budget walk over its candidates.
    pub fn new(project: Option<String>, model_version: String, ir_digest: String, mode: String, budget: u64,
        roots: Vec<String>, sections: Vec<(String, Vec<Fact>)>, walk: Walk, gaps: Vec<Gap>, complete: bool,
        spans: Vec<SpanRow>) -> (r: Capsule)
        ensures
            r@ == (CapsuleView {
                project: match project { Some(p) => Some(p@), None => None },
                model_version: model_version@,
                ir_digest: ir_digest@,
                mode: mode@,
                budget,
                roots: texts(roots@),
                sections: section_views(sections@),
                manifest: walk.manifest@,
                gaps: gaps@,
                estimated: walk.estimated,
                minimum_required: walk.minimum_required,
                fits: walk.fits,
                complete,
                spans: spans@,
            }),
    {
        Capsule {
            project,
            model_version,
            ir_digest,
            mode,
            budget,
            roots,
            sections,
            manifest: walk.manifest,
            gaps,
            estimated: walk.estimated,
            minimum_required: walk.minimum_required,
            fits: walk.fits,
            complete,
            spans,
        }
    }

    /// Whether every candidate fact fit the budget.
    pub fn fits(&self) -> (r: bool)
        ensures
            r == self@.fits,
    {
        self.fits
    }

    /// The estimated tokens of the emitted capsule.
    pub fn estimated_tokens(&self) -> (r: u64)
        ensures
            r == self@.estimated,
    {
        self.estimated
    }

    /// The budget that fits every candidate fact.
    pub fn minimum_required_tokens(&self) -> (r: u64)
        ensures
            r == self@.minimum_required,
    {
        self.minimum_required
    }

    /// The requested budget limit.
    pub fn budget(&self) -> (r: u64)
        ensures
            r == self@.budget,
    {
        self.budget
    }

    /// The number of candidate facts, included and excluded.
    pub fn candidate_count(&self) -> (r: usize)
        ensures
            r == self@.manifest.len(),
    {
        self.manifest.len()
    }

    /// The number of included facts: manifest rows without a reason.
    pub fn included_count(&self) -> (r: usize)
        ensures
            r == included_rows(self@.manifest).len(),
    {
        let (_, _, n, _) = split_rows(&self.manifest);
        n
    }

    /// The number of excluded facts: manifest rows with a reason.
    pub fn excluded_count(&self) -> (r: usize)
        ensures
            r == excluded_rows(self@.manifest).len(),
    {
        let (_, _, _, n) = split_rows(&self.manifest);
        n
    }

    /// The qualified root identities in canonical order.
    pub fn roots(&self) -> (r: &[String])
        ensures
            texts(r@) == self@.roots,
    {
        self.roots.as_slice()
    }

    /// The capsule mode spelling (`symbol` or `changed`).
    pub fn mode(&self) -> (r: &str)
        ensures
            r@ == self@.mode,
    {
        self.mode.as_str()
    }
}

// ---------------------------------------------------------------------
// The Markdown projection

/// Lines joined by line feeds, without a trailing one.
pub open spec fn lines_joined(lines: Seq<Seq<char>>) -> Seq<char>
    decreases lines.len(),
{
    if lines.len() == 0 {
        Seq::empty()
    } else if lines.len() == 1 {
        lines[0]
    } else {
        lines_joined(lines.drop_last()) + "\n"@ + lines.last()
    }
}

/// The spelling of a flag.
pub open spec fn flag_text(b: bool) -> Seq<char> {
    if b { "true"@ } else { "false"@ }
}

/// The header lines: identities, pins, budget, coverage, completeness.
pub open spec fn header_lines(c: CapsuleView) -> Seq<Seq<char>> {
    seq![
        "# context capsule"@,
        "- identity: "@ + super::version::IDENTITY@,
        "- contract: "@ + super::version::SCHEMA_VERSION@,
        "- model version: "@ + c.model_version,
        "- mode: "@ + c.mode,
        "- project: "@ + match c.project { Some(p) => p, None => "none"@ },
        "- roots: "@ + comma_joined(c.roots),
        "- ir digest: "@ + c.ir_digest,
        "- estimator: "@ + super::estimate::IDENTITY@,
        "- estimator digest: "@ + crate::digest::digest_text(vstd::utf8::encode_utf8(super::estimate::SPEC@)),
        "- budget: limit "@ + decimal(c.budget as nat) + ", estimated "@ + decimal(c.estimated as nat)
            + ", minimum required "@ + decimal(c.minimum_required as nat) + ", fits "@ + flag_text(c.fits),
        "- coverage: "@ + decimal(c.manifest.len()) + " candidates, "@ + decimal(included_rows(c.manifest).len())
            + " included, "@ + decimal(excluded_rows(c.manifest).len()) + " excluded"@,
        "- complete: "@ + flag_text(c.complete),
    ]
}

/// The lines of facts, in order.
pub open spec fn facts_lines(fs: Seq<Fact>) -> Seq<Seq<char>>
    decreases fs.len(),
{
    if fs.len() == 0 { Seq::empty() } else { facts_lines(fs.drop_last()) + fact_lines(fs.last()) }
}

/// Each section: a blank line, its `## ` heading, then its facts.
pub open spec fn sections_lines(s: Seq<(Seq<char>, Seq<Fact>)>) -> Seq<Seq<char>>
    decreases s.len(),
{
    if s.len() == 0 {
        Seq::empty()
    } else {
        sections_lines(s.drop_last()) + seq![Seq::empty(), "## "@ + s.last().0] + facts_lines(s.last().1)
    }
}

/// One span line `- id: path:line:column-line:column`.
pub open spec fn span_line(s: SpanRow) -> Seq<char> {
    "- "@ + s.id@ + ": "@ + s.path@ + ":"@ + decimal(s.start.line as nat) + ":"@ + decimal(s.start.column as nat)
        + "-"@ + decimal(s.end.line as nat) + ":"@ + decimal(s.end.column as nat)
}

/// One gap line: the gap, then its symbols when it names any.
pub open spec fn gap_line(g: Gap) -> Seq<char> {
    if g.symbols@.len() == 0 { "- "@ + g.gap@ } else { "- "@ + g.gap@ + ": "@ + comma_joined(texts(g.symbols@)) }
}

/// One excluded row `- id (section, reason: budget)`.
pub open spec fn excluded_line(r: ManifestRow) -> Seq<char> {
    "- "@ + r.id@ + " ("@ + r.section@ + ", reason: "@ + "budget"@ + ")"@
}

/// A block with a heading, present only when it has lines.
pub open spec fn block(heading: Seq<char>, lines: Seq<Seq<char>>) -> Seq<Seq<char>> {
    if lines.len() > 0 { seq![Seq::empty(), heading] + lines } else { Seq::empty() }
}

/// All lines of the Markdown document.
pub open spec fn capsule_lines(c: CapsuleView) -> Seq<Seq<char>> {
    header_lines(c) + sections_lines(c.sections)
        + block("## spans"@, c.spans.map_values(|s: SpanRow| span_line(s)))
        + block("## gaps"@, c.gaps.map_values(|g: Gap| gap_line(g)))
        + block("## excluded"@, excluded_rows(c.manifest).map_values(|r: ManifestRow| excluded_line(r)))
}

/// The Markdown document of a capsule.
pub open spec fn capsule_markdown_text(c: CapsuleView) -> Seq<char> {
    lines_joined(capsule_lines(c))
}

fn flag_str(b: bool) -> (r: &'static str)
    ensures
        r@ == flag_text(b),
{
    if b { "true" } else { "false" }
}

fn lines_join(lines: &Vec<String>) -> (r: String)
    ensures
        r@ == lines_joined(texts(lines@)),
{
    let ghost all = texts(lines@);
    let mut out = String::new();
    let mut i: usize = 0;
    assert(all.take(0) =~= Seq::<Seq<char>>::empty());
    while i < lines.len()
        invariant
            all == texts(lines@),
            i <= lines@.len(),
            out@ == lines_joined(all.take(i as int)),
        decreases lines@.len() - i,
    {
        proof {
            assert(all.take(i + 1).drop_last() =~= all.take(i as int));
            assert(all.take(i + 1).last() == lines@[i as int]@);
        }
        if i > 0 {
            out.append("\n");
        }
        out.append(lines[i].as_str());
        proof {
            if i == 0 {
                assert(all.take(1) =~= seq![lines@[0]@]);
                assert(out@ =~= lines_joined(all.take(1)));
            }
        }
        i = i + 1;
    }
    assert(all.take(lines@.len() as int) =~= all);
    out
}

fn append_lines(lines: &mut Vec<String>, more: Vec<String>)
    ensures
        texts(final(lines)@) == texts(old(lines)@) + texts(more@),
{
    let ghost start = texts(lines@);
    let ghost m = texts(more@);
    let mut rest = more;
    let ghost n = rest@.len();
    assert(start + m.take(0) =~= start);
    let mut k: usize = 0;
    let count = rest.len();
    assert(texts(rest@) =~= m.skip(0));
    while rest.len() > 0
        invariant
            n == count,
            k + rest@.len() == n,
            n == m.len(),
            texts(rest@) =~= m.skip(k as int),
            texts(lines@) == start + m.take(k as int),
        decreases rest@.len(),
    {
        let ghost before = rest@;
        let line = rest.remove(0);
        assert(texts(before)[0] == line@);
        assert(texts(rest@) =~= texts(before).drop_first());
        push_line(lines, line);
        assert(m.take(k + 1) =~= m.take(k as int).push(line@));
        assert(texts(lines@) =~= start + m.take(k + 1));
        k = k + 1;
    }
    assert(m.take(n as int) =~= m);
}

fn section_block(lines: &mut Vec<String>, key: &str, facts: &Vec<Fact>)
    ensures
        texts(final(lines)@) == texts(old(lines)@) + seq![Seq::empty(), "## "@ + key@] + facts_lines(facts@),
{
    let ghost start = texts(lines@);
    push_line(lines, String::new());
    let mut head = "## ".to_owned();
    head.append(key);
    push_line(lines, head);
    let ghost mid = texts(lines@);
    assert(mid =~= start + seq![Seq::empty(), "## "@ + key@]);
    let mut i: usize = 0;
    assert(facts@.take(0) =~= Seq::<Fact>::empty());
    while i < facts.len()
        invariant
            i <= facts@.len(),
            texts(lines@) == mid + facts_lines(facts@.take(i as int)),
        decreases facts@.len() - i,
    {
        let more = facts[i].markdown();
        append_lines(lines, more);
        proof {
            assert(facts@.take(i + 1).drop_last() =~= facts@.take(i as int));
            assert(facts@.take(i + 1).last() == facts@[i as int]);
        }
        assert(texts(lines@) =~= mid + facts_lines(facts@.take(i + 1)));
        i = i + 1;
    }
    assert(facts@.take(facts@.len() as int) =~= facts@);
}

fn span_text(s: &SpanRow) -> (r: String)
    ensures
        r@ == span_line(*s),
{
    let mut t = "- ".to_owned();
    t.append(s.id.as_str());
    t.append(": ");
    t.append(s.path.as_str());
    t.append(":");
    t.append(decimal_text(s.start.line as u64).as_str());
    t.append(":");
    t.append(decimal_text(s.start.column as u64).as_str());
    t.append("-");
    t.append(decimal_text(s.end.line as u64).as_str());
    t.append(":");
    t.append(decimal_text(s.end.column as u64).as_str());
    t
}

fn gap_text(g: &Gap) -> (r: String)
    ensures
        r@ == gap_line(*g),
{
    let mut t = "- ".to_owned();
    t.append(g.gap.as_str());
    if g.symbols.len() > 0 {
        t.append(": ");
        t.append(comma_join(&g.symbols).as_str());
    }
    t
}

fn excluded_text(r: &ManifestRow) -> (t: String)
    ensures
        t@ == excluded_line(*r),
{
    let mut t = "- ".to_owned();
    t.append(r.id.as_str());
    t.append(" (");
    t.append(r.section.as_str());
    t.append(", reason: ");
    t.append("budget");
    t.append(")");
    t
}

fn push_block(lines: &mut Vec<String>, heading: &str, body: Vec<String>)
    ensures
        texts(final(lines)@) == texts(old(lines)@) + block(heading@, texts(body@)),
{
    let ghost start = texts(lines@);
    if body.len() > 0 {
        push_line(lines, String::new());
        push_line(lines, heading.to_owned());
        let ghost mid = texts(lines@);
        append_lines(lines, body);
        assert(texts(lines@) =~= start + block(heading@, texts(body@)));
    } else {
        assert(texts(lines@) =~= start + block(heading@, texts(body@)));
    }
}

impl Capsule {
    /// The header lines.
    fn header(&self) -> (r: Vec<String>)
        ensures
            texts(r@) == header_lines(self@),
    {
        let mut lines: Vec<String> = Vec::new();
        push_line(&mut lines, "# context capsule".to_owned());
        let mut t = "- identity: ".to_owned();
        t.append(super::version::IDENTITY);
        push_line(&mut lines, t);
        let mut t = "- contract: ".to_owned();
        t.append(super::version::SCHEMA_VERSION);
        push_line(&mut lines, t);
        let mut t = "- model version: ".to_owned();
        t.append(self.model_version.as_str());
        push_line(&mut lines, t);
        let mut t = "- mode: ".to_owned();
        t.append(self.mode.as_str());
        push_line(&mut lines, t);
        let mut t = "- project: ".to_owned();
        match &self.project {
            Some(p) => t.append(p.as_str()),
            None => t.append("none"),
        }
        push_line(&mut lines, t);
        let mut t = "- roots: ".to_owned();
        t.append(comma_join(&self.roots).as_str());
        push_line(&mut lines, t);
        let mut t = "- ir digest: ".to_owned();
        t.append(self.ir_digest.as_str());
        push_line(&mut lines, t);
        let mut t = "- estimator: ".to_owned();
        t.append(super::estimate::IDENTITY);
        push_line(&mut lines, t);
        let mut t = "- estimator digest: ".to_owned();
        t.append(super::estimate::digest().as_str());
        push_line(&mut lines, t);
        let mut t = "- budget: limit ".to_owned();
        t.append(decimal_text(self.budget).as_str());
        t.append(", estimated ");
        t.append(decimal_text(self.estimated).as_str());
        t.append(", minimum required ");
        t.append(decimal_text(self.minimum_required).as_str());
        t.append(", fits ");
        t.append(flag_str(self.fits));
        push_line(&mut lines, t);
        let (_, _, ni, ne) = split_rows(&self.manifest);
        let mut t = "- coverage: ".to_owned();
        t.append(decimal_text(self.manifest.len() as u64).as_str());
        t.append(" candidates, ");
        t.append(decimal_text(ni as u64).as_str());
        t.append(" included, ");
        t.append(decimal_text(ne as u64).as_str());
        t.append(" excluded");
        push_line(&mut lines, t);
        let mut t = "- complete: ".to_owned();
        t.append(flag_str(self.complete));
        push_line(&mut lines, t);
        assert(texts(lines@) =~= header_lines(self@));
        lines
    }

    /// The deterministic Markdown document.
    pub fn to_markdown(&self) -> (r: String)
        ensures
            r@ == capsule_markdown_text(self@),
    {
        let mut lines = self.header();
        let ghost head = texts(lines@);
        let ghost sv = section_views(self.sections@);
        let mut i: usize = 0;
        assert(sv.take(0) =~= Seq::<(Seq<char>, Seq<Fact>)>::empty());
        while i < self.sections.len()
            invariant
                i <= self.sections@.len(),
                sv == section_views(self.sections@),
                texts(lines@) == head + sections_lines(sv.take(i as int)),
            decreases self.sections@.len() - i,
        {
            section_block(&mut lines, self.sections[i].0.as_str(), &self.sections[i].1);
            proof {
                assert(sv.take(i + 1).drop_last() =~= sv.take(i as int));
                assert(sv.take(i + 1).last() == (self.sections@[i as int].0@, self.sections@[i as int].1@));
            }
            assert(texts(lines@) =~= head + sections_lines(sv.take(i + 1)));
            i = i + 1;
        }
        assert(sv.take(sv.len() as int) =~= sv);

        let mut spans: Vec<String> = Vec::new();
        let mut k: usize = 0;
        while k < self.spans.len()
            invariant
                k <= self.spans@.len(),
                texts(spans@) == self.spans@.take(k as int).map_values(|s: SpanRow| span_line(s)),
            decreases self.spans@.len() - k,
        {
            push_line(&mut spans, span_text(&self.spans[k]));
            assert(texts(spans@) =~= self.spans@.take(k + 1).map_values(|s: SpanRow| span_line(s)));
            k = k + 1;
        }
        assert(self.spans@.take(self.spans@.len() as int) =~= self.spans@);
        push_block(&mut lines, "## spans", spans);

        let mut gaps: Vec<String> = Vec::new();
        let mut k: usize = 0;
        while k < self.gaps.len()
            invariant
                k <= self.gaps@.len(),
                texts(gaps@) == self.gaps@.take(k as int).map_values(|g: Gap| gap_line(g)),
            decreases self.gaps@.len() - k,
        {
            push_line(&mut gaps, gap_text(&self.gaps[k]));
            assert(texts(gaps@) =~= self.gaps@.take(k + 1).map_values(|g: Gap| gap_line(g)));
            k = k + 1;
        }
        assert(self.gaps@.take(self.gaps@.len() as int) =~= self.gaps@);
        push_block(&mut lines, "## gaps", gaps);

        let ghost m = self.manifest@;
        let mut excluded: Vec<String> = Vec::new();
        let mut k: usize = 0;
        assert(m.take(0) =~= Seq::<ManifestRow>::empty());
        while k < self.manifest.len()
            invariant
                k <= m.len(),
                m == self.manifest@,
                texts(excluded@) == excluded_rows(m.take(k as int)).map_values(|r: ManifestRow| excluded_line(r)),
            decreases m.len() - k,
        {
            proof {
                assert(m.take(k + 1).drop_last() =~= m.take(k as int));
                assert(m.take(k + 1).last() == m[k as int]);
            }
            if self.manifest[k].reason.is_some() {
                push_line(&mut excluded, excluded_text(&self.manifest[k]));
            }
            assert(texts(excluded@) =~= excluded_rows(m.take(k + 1)).map_values(|r: ManifestRow| excluded_line(r)));
            k = k + 1;
        }
        assert(m.take(m.len() as int) =~= m);
        push_block(&mut lines, "## excluded", excluded);
        assert(texts(lines@) =~= capsule_lines(self@));
        lines_join(&lines)
    }
}

} // verus!
