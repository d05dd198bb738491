//! The capsule selection decisions: the closed scope and section
//! vocabulary, the ranked budget walk that decides inclusion fact by
//! fact, and the closed gap vocabulary. The walk is the only selection
//! decision of a capsule; a small budget is explainable in-band
//! metadata, never an error.

use vstd::prelude::*;
use crate::text::str_eq;
use super::version::MAX_BUDGET_TOKENS;

verus! {

/// The closed capsule scope: one symbol, or the typed changed set.
#[derive(Clone, Debug, PartialEq, Eq)]
pub enum CapsuleScope {
    /// Build the capsule for exactly one symbol.
    Symbol(String),
    /// Build one capsule over the explicitly supplied changed symbols.
    Changed(Vec<String>),
}

/// Why one candidate fact is excluded from the emitted capsule.
#[derive(Clone, Copy, Debug, PartialEq, Eq, Structural)]
pub enum ExclusionReason {
    /// The ranked budget walk could not fit the fact.
    Budget,
}

impl ExclusionReason {
    /// The exact wire spelling.
    pub fn as_str(self) -> (r: &'static str)
        ensures
            r@ == "budget"@,
    {
        "budget"
    }
}

/// The closed section vocabulary in selection-rank order: protected
/// semantic facts first, ranked supporting context last.
pub open spec fn section_keys() -> Seq<Seq<char>> {
    seq!["symbol"@, "policies"@, "effects"@, "dependencies"@, "scenarios"@, "public-impact"@, "bindings"@,
        "types"@, "closure"@]
}

/// The rank of a section key in the closed vocabulary, if it is one.
pub fn section_rank(key: &str) -> (r: Option<usize>)
    ensures
        match r {
            Some(i) => i < 9 && section_keys()[i as int] == key@
                && forall|j: int| 0 <= j < i ==> section_keys()[j] != key@,
            None => !section_keys().contains(key@),
        },
{
    let keys: [&str; 9] = ["symbol", "policies", "effects", "dependencies", "scenarios", "public-impact", "bindings",
        "types", "closure"];
    let ghost view = section_keys();
    proof {
        assert(keys@.map_values(|k: &str| k@) =~= view);
    }
    let mut i: usize = 0;
    while i < 9
        invariant
            i <= 9,
            view == section_keys(),
            keys@.map_values(|k: &str| k@) == view,
            forall|j: int| 0 <= j < i ==> view[j] != key@,
        decreases 9 - i,
    {
        assert(keys@.map_values(|k: &str| k@)[i as int] == keys@[i as int]@);
        if str_eq(keys[i], key) {
            return Some(i);
        }
        i = i + 1;
    }
    None
}

/// One ranked candidate fact: its id, its section, and its estimated
/// tokens.
#[derive(Clone, Debug, PartialEq, Eq)]
pub struct Candidate {
    pub id: String,
    pub section: String,
    pub tokens: u64,
}

/// One manifest row: the explainable inclusion or exclusion record.
#[derive(Clone, Debug, PartialEq, Eq)]
pub struct ManifestRow {
    pub id: String,
    pub section: String,
    pub tokens: u64,
    pub reason: Option<ExclusionReason>,
}

/// The outcome of the budget walk.
#[derive(Clone, Debug, PartialEq, Eq)]
pub struct Walk {
    /// One row per candidate, in walk order.
    pub manifest: Vec<ManifestRow>,
    /// The estimated tokens of the included facts.
    pub estimated: u64,
    /// The tokens every candidate needs together.
    pub minimum_required: u64,
    /// Whether every candidate fit.
    pub fits: bool,
}

/// The token counts of candidates.
pub open spec fn token_counts(cs: Seq<Candidate>) -> Seq<u64> {
    cs.map_values(|c: Candidate| c.tokens)
}

/// The sum of token counts.
pub open spec fn total(ts: Seq<u64>) -> int
    decreases ts.len(),
{
    if ts.len() == 0 { 0 } else { total(ts.drop_last()) + ts.last() }
}

/// The estimate after walking `ts` in order: a fact is taken when it
/// still fits the budget on top of what was taken before it.
pub open spec fn walked(ts: Seq<u64>, budget: int) -> int
    decreases ts.len(),
{
    if ts.len() == 0 {
        0
    } else {
        let e = walked(ts.drop_last(), budget);
        if e + ts.last() <= budget { e + ts.last() } else { e }
    }
}

/// Whether the walk takes fact `k`.
pub open spec fn taken(ts: Seq<u64>, budget: int, k: int) -> bool {
    walked(ts.take(k), budget) + ts[k] <= budget
}

/// The walk never exceeds the budget nor what every fact needs.
pub proof fn lemma_walk_bounds(ts: Seq<u64>, budget: int)
    requires
        budget >= 0,
    ensures
        0 <= walked(ts, budget) <= budget,
        walked(ts, budget) <= total(ts),
    decreases ts.len(),
{
    if ts.len() > 0 {
        lemma_walk_bounds(ts.drop_last(), budget);
    }
}

/// Extending the walk by one fact.
proof fn lemma_walk_step(ts: Seq<u64>, budget: int, k: int)
    requires
        0 <= k < ts.len(),
    ensures
        walked(ts.take(k + 1), budget) == if taken(ts, budget, k) { walked(ts.take(k), budget) + ts[k] }
            else { walked(ts.take(k), budget) },
        total(ts.take(k + 1)) == total(ts.take(k)) + ts[k],
{
    assert(ts.take(k + 1).drop_last() =~= ts.take(k));
}

/// The walk fits every fact exactly when its estimate reaches the total:
/// nothing is excluded if and only if the estimate equals what every
/// candidate needs.
pub proof fn lemma_fits_iff_nothing_excluded(ts: Seq<u64>, budget: int)
    requires
        budget >= 0,
    ensures
        (walked(ts, budget) == total(ts)) <==> (forall|k: int| 0 <= k < ts.len() ==> #[trigger] taken(ts, budget, k)),
    decreases ts.len(),
{
    if ts.len() > 0 {
        let n = ts.len() - 1;
        let init = ts.drop_last();
        lemma_fits_iff_nothing_excluded(init, budget);
        lemma_walk_bounds(init, budget);
        assert(ts.take(n) =~= init);
        assert forall|k: int| 0 <= k < n implies #[trigger] taken(ts, budget, k) == taken(init, budget, k) by {
            assert(ts.take(k) =~= init.take(k));
        }
        if walked(ts, budget) == total(ts) {
            if !taken(ts, budget, n) {
                assert(walked(ts, budget) == walked(init, budget));
                assert(ts[n] >= 0);
                assert(walked(init, budget) + ts[n] > budget);
                assert(walked(init, budget) <= budget);
                assert(ts[n] > 0);
            }
            assert(walked(init, budget) == total(init));
        }
        if forall|k: int| 0 <= k < ts.len() ==> #[trigger] taken(ts, budget, k) {
            assert forall|k: int| 0 <= k < init.len() implies #[trigger] taken(init, budget, k) by {
                assert(taken(ts, budget, k));
            }
            assert(taken(ts, budget, n));
        }
    } else {
        assert(walked(ts, budget) == total(ts));
    }
}

/// Two walks of the same facts under budgets `b1 <= b2`: the smaller
/// estimate never passes the larger one, and when they differ the
/// larger walk has already passed `b1`.
proof fn lemma_walk_compare(ts: Seq<u64>, b1: int, b2: int)
    requires
        0 <= b1 <= b2,
    ensures
        walked(ts, b1) <= walked(ts, b2),
        walked(ts, b1) < walked(ts, b2) ==> walked(ts, b2) > b1,
    decreases ts.len(),
{
    if ts.len() > 0 {
        lemma_walk_compare(ts.drop_last(), b1, b2);
        lemma_walk_bounds(ts.drop_last(), b1);
    }
}

/// The walk is monotone in the budget: a larger budget never estimates
/// less, and a walk that fits every fact still fits under any larger
/// budget.
pub proof fn lemma_walk_monotone(ts: Seq<u64>, b1: int, b2: int)
    requires
        0 <= b1 <= b2,
    ensures
        walked(ts, b1) <= walked(ts, b2),
        walked(ts, b1) == total(ts) ==> walked(ts, b2) == total(ts),
{
    lemma_walk_compare(ts, b1, b2);
    lemma_walk_bounds(ts, b2);
}

/// What every fact needs together is the least budget that fits them
/// all: the walk fits exactly when the budget reaches the total.
pub proof fn lemma_total_is_least_fitting_budget(ts: Seq<u64>, budget: int)
    requires
        budget >= 0,
    ensures
        (walked(ts, budget) == total(ts)) <==> budget >= total(ts),
    decreases ts.len(),
{
    lemma_walk_bounds(ts, budget);
    if ts.len() > 0 {
        lemma_total_is_least_fitting_budget(ts.drop_last(), budget);
        lemma_total_nonneg(ts.drop_last());
    }
}

/// The manifest row that the walk records for candidate `k`.
pub open spec fn row_of(cs: Seq<Candidate>, budget: int, k: int, row: ManifestRow) -> bool {
    &&& row.id@ == cs[k].id@
    &&& row.section@ == cs[k].section@
    &&& row.tokens == cs[k].tokens
    &&& row.reason == if taken(token_counts(cs), budget, k) { None } else { Some(ExclusionReason::Budget) }
}

/// The ranked budget walk over candidates in rank order: each fact is
/// included when it still fits the budget on top of the facts included
/// before it, and excluded for the budget otherwise. Every candidate gets
/// one manifest row; the estimate never exceeds the budget, and the walk
/// fits exactly when every candidate is included.
pub fn budget_walk(candidates: &Vec<Candidate>, budget: u64) -> (r: Walk)
    requires
        1 <= budget <= MAX_BUDGET_TOKENS,
        total(token_counts(candidates@)) <= u64::MAX,
    ensures
        r.manifest@.len() == candidates@.len(),
        forall|k: int| 0 <= k < candidates@.len() ==> row_of(candidates@, budget as int, k, #[trigger] r.manifest@[k]),
        r.estimated == walked(token_counts(candidates@), budget as int),
        r.minimum_required == total(token_counts(candidates@)),
        r.fits == (r.estimated == r.minimum_required),
        r.estimated <= budget,
        r.fits <==> forall|k: int| 0 <= k < candidates@.len() ==> r.manifest@[k].reason is None,
{
    let ghost ts = token_counts(candidates@);
    let mut manifest: Vec<ManifestRow> = Vec::new();
    let mut estimated: u64 = 0;
    let mut minimum_required: u64 = 0;
    let mut i: usize = 0;
    proof {
        assert(ts.take(0) =~= Seq::<u64>::empty());
        lemma_walk_bounds(ts, budget as int);
    }
    while i < candidates.len()
        invariant
            ts == token_counts(candidates@),
            ts.len() == candidates@.len(),
            1 <= budget <= MAX_BUDGET_TOKENS,
            total(ts) <= u64::MAX,
            i <= candidates@.len(),
            manifest@.len() == i,
            forall|k: int| 0 <= k < i ==> row_of(candidates@, budget as int, k, #[trigger] manifest@[k]),
            estimated == walked(ts.take(i as int), budget as int),
            minimum_required == total(ts.take(i as int)),
        decreases candidates@.len() - i,
    {
        let c = &candidates[i];
        let tokens = c.tokens;
        proof {
            lemma_walk_step(ts, budget as int, i as int);
            lemma_walk_bounds(ts.take(i as int), budget as int);
            lemma_total_prefix(ts, i + 1);
            assert(ts[i as int] == tokens);
        }
        minimum_required = minimum_required + tokens;
        let reason = if estimated + tokens <= budget {
            estimated = estimated + tokens;
            None
        } else {
            Some(ExclusionReason::Budget)
        };
        manifest.push(ManifestRow { id: c.id.clone(), section: c.section.clone(), tokens, reason });
        i = i + 1;
    }
    proof {
        assert(ts.take(ts.len() as int) =~= ts);
        lemma_walk_bounds(ts, budget as int);
        lemma_fits_iff_nothing_excluded(ts, budget as int);
        assert forall|k: int| 0 <= k < candidates@.len() implies
            (#[trigger] manifest@[k].reason is None) == taken(ts, budget as int, k) by {
            assert(row_of(candidates@, budget as int, k, manifest@[k]));
        }
        if forall|k: int| 0 <= k < candidates@.len() ==> manifest@[k].reason is None {
            assert forall|k: int| 0 <= k < ts.len() implies #[trigger] taken(ts, budget as int, k) by {
                assert(manifest@[k].reason is None);
            }
        }
        if forall|k: int| 0 <= k < ts.len() ==> #[trigger] taken(ts, budget as int, k) {
            assert forall|k: int| 0 <= k < candidates@.len() implies manifest@[k].reason is None by {
                assert(taken(ts, budget as int, k));
            }
        }
    }
    let fits = estimated == minimum_required;
    Walk { manifest, estimated, minimum_required, fits }
}

/// A prefix's total never exceeds the whole.
proof fn lemma_total_prefix(ts: Seq<u64>, k: int)
    requires
        0 <= k <= ts.len(),
    ensures
        0 <= total(ts.take(k)) <= total(ts),
    decreases ts.len() - k,
{
    if k < ts.len() {
        lemma_total_prefix(ts, k + 1);
        assert(ts.take(k + 1).drop_last() =~= ts.take(k));
    } else {
        assert(ts.take(k) =~= ts);
    }
    lemma_total_nonneg(ts.take(k));
}

proof fn lemma_total_nonneg(ts: Seq<u64>)
    ensures
        total(ts) >= 0,
    decreases ts.len(),
{
    if ts.len() > 0 {
        lemma_total_nonneg(ts.drop_last());
    }
}


/// What the closed gap vocabulary is decided from.
#[derive(Clone, Debug, PartialEq, Eq)]
pub struct GapInputs {
    /// Whether the effect graph carries any detected envelope.
    pub detected_effects: bool,
    /// The roots without a description, in canonical order.
    pub undescribed: Vec<String>,
    /// Whether a policies section was selected.
    pub has_policies: bool,
    /// The root operations that declare no effect, in canonical order.
    pub silent_operations: Vec<String>,
    /// Whether a scenarios section was selected.
    pub has_scenarios: bool,
    /// Whether the project declares any target binding.
    pub project_has_bindings: bool,
    /// Whether a bindings section was selected.
    pub has_bindings: bool,
    /// Whether the supporting closure walk ran to completion.
    pub closure_complete: bool,
}

/// One closed confidence-gap row.
#[derive(Clone, Debug, PartialEq, Eq)]
pub struct Gap {
    pub gap: String,
    pub symbols: Vec<String>,
}

/// The texts of a list of strings.
pub open spec fn texts(s: Seq<String>) -> Seq<Seq<char>> {
    s.map_values(|t: String| t@)
}

/// One gap row's content when `present`.
pub open spec fn gap_row(present: bool, gap: Seq<char>, symbols: Seq<Seq<char>>) -> Seq<(Seq<char>, Seq<Seq<char>>)> {
    if present { seq![(gap, symbols)] } else { Seq::empty() }
}

/// The gap rows of a capsule, in byte order of the gap names (the
/// error-contract gap is always present).
pub open spec fn gap_rows(i: GapInputs) -> Seq<(Seq<char>, Seq<Seq<char>>)> {
    gap_row(!i.closure_complete, "closure-bounded"@, Seq::empty())
        + gap_row(!i.detected_effects, "detected-effects-absent"@, Seq::empty())
        + gap_row(true, "error-contracts-unrepresentable"@, Seq::empty())
        + gap_row(i.undescribed@.len() > 0, "no-description"@, texts(i.undescribed@))
        + gap_row(i.silent_operations@.len() > 0, "no-effects"@, texts(i.silent_operations@))
        + gap_row(!i.has_policies, "no-policies"@, Seq::empty())
        + gap_row(i.project_has_bindings && !i.has_bindings, "no-relevant-bindings"@, Seq::empty())
        + gap_row(!i.has_scenarios, "no-scenario-coverage"@, Seq::empty())
}

/// The content of gap rows.
pub open spec fn gap_views(gs: Seq<Gap>) -> Seq<(Seq<char>, Seq<Seq<char>>)> {
    gs.map_values(|g: Gap| (g.gap@, texts(g.symbols@)))
}

fn push_gap(out: &mut Vec<Gap>, present: bool, gap: &str, symbols: &Vec<String>)
    ensures
        gap_views(final(out)@) == gap_views(old(out)@) + gap_row(present, gap@, texts(symbols@)),
{
    if present {
        let ghost before = out@;
        out.push(Gap { gap: gap.to_owned(), symbols: symbols.clone() });
        proof {
            assert(gap_views(out@) =~= gap_views(before) + seq![(gap@, texts(symbols@))]) by {
                assert(out@ == before.push(out@.last()));
                assert(texts(out@.last().symbols@) =~= texts(symbols@));
            }
        }
    } else {
        assert(gap_views(out@) =~= gap_views(out@) + Seq::<(Seq<char>, Seq<Seq<char>>)>::empty());
    }
}

/// The closed gap vocabulary of one capsule, sorted by gap name: the
/// error-contract gap always; detected effects absent; roots without a
/// description; no policies; operations without effects; no scenario
/// coverage; bindings declared but none relevant; a bounded closure.
pub fn gaps(inputs: &GapInputs) -> (r: Vec<Gap>)
    ensures
        gap_views(r@) == gap_rows(*inputs),
{
    let none: Vec<String> = Vec::new();
    assert(texts(none@) =~= Seq::<Seq<char>>::empty());
    let mut out: Vec<Gap> = Vec::new();
    assert(gap_views(out@) =~= Seq::<(Seq<char>, Seq<Seq<char>>)>::empty());
    push_gap(&mut out, !inputs.closure_complete, "closure-bounded", &none);
    push_gap(&mut out, !inputs.detected_effects, "detected-effects-absent", &none);
    push_gap(&mut out, true, "error-contracts-unrepresentable", &none);
    push_gap(&mut out, inputs.undescribed.len() > 0, "no-description", &inputs.undescribed);
    push_gap(&mut out, inputs.silent_operations.len() > 0, "no-effects", &inputs.silent_operations);
    push_gap(&mut out, !inputs.has_policies, "no-policies", &none);
    push_gap(&mut out, inputs.project_has_bindings && !inputs.has_bindings, "no-relevant-bindings", &none);
    push_gap(&mut out, !inputs.has_scenarios, "no-scenario-coverage", &none);
    proof {
        assert(gap_views(out@) =~= gap_rows(*inputs));
    }
    out
}

/// Whether some row of `rows` carries the gap name `name`.
pub open spec fn has_gap(rows: Seq<(Seq<char>, Seq<Seq<char>>)>, name: Seq<char>) -> bool {
    exists|k: int| 0 <= k < rows.len() && #[trigger] rows[k].0 == name
}

proof fn lemma_has_gap_concat(a: Seq<(Seq<char>, Seq<Seq<char>>)>, b: Seq<(Seq<char>, Seq<Seq<char>>)>, name: Seq<char>)
    ensures
        has_gap(a + b, name) <==> (has_gap(a, name) || has_gap(b, name)),
{
    if has_gap(a + b, name) {
        let k = choose|k: int| 0 <= k < (a + b).len() && #[trigger] (a + b)[k].0 == name;
        if k < a.len() {
            assert(a[k] == (a + b)[k]);
        } else {
            assert(b[k - a.len()] == (a + b)[k]);
        }
    }
    if has_gap(a, name) {
        let k = choose|k: int| 0 <= k < a.len() && #[trigger] a[k].0 == name;
        assert((a + b)[k] == a[k]);
    }
    if has_gap(b, name) {
        let k = choose|k: int| 0 <= k < b.len() && #[trigger] b[k].0 == name;
        assert((a + b)[k + a.len()] == b[k]);
    }
}

proof fn lemma_has_gap_row(present: bool, gap: Seq<char>, symbols: Seq<Seq<char>>, name: Seq<char>)
    ensures
        has_gap(gap_row(present, gap, symbols), name) <==> (present && gap == name),
{
    if present {
        assert(gap_row(present, gap, symbols)[0].0 == gap);
    }
}

proof fn lemma_gap_rows_membership(i: GapInputs, name: Seq<char>)
    ensures
        has_gap(gap_rows(i), name) <==> (
            (!i.closure_complete && name == "closure-bounded"@)
            || (!i.detected_effects && name == "detected-effects-absent"@)
            || name == "error-contracts-unrepresentable"@
            || (i.undescribed@.len() > 0 && name == "no-description"@)
            || (i.silent_operations@.len() > 0 && name == "no-effects"@)
            || (!i.has_policies && name == "no-policies"@)
            || (i.project_has_bindings && !i.has_bindings && name == "no-relevant-bindings"@)
            || (!i.has_scenarios && name == "no-scenario-coverage"@)
        ),
{
    let none = Seq::<Seq<char>>::empty();
    let g1 = gap_row(!i.closure_complete, "closure-bounded"@, none);
    let g2 = gap_row(!i.detected_effects, "detected-effects-absent"@, none);
    let g3 = gap_row(true, "error-contracts-unrepresentable"@, none);
    let g4 = gap_row(i.undescribed@.len() > 0, "no-description"@, texts(i.undescribed@));
    let g5 = gap_row(i.silent_operations@.len() > 0, "no-effects"@, texts(i.silent_operations@));
    let g6 = gap_row(!i.has_policies, "no-policies"@, none);
    let g7 = gap_row(i.project_has_bindings && !i.has_bindings, "no-relevant-bindings"@, none);
    let g8 = gap_row(!i.has_scenarios, "no-scenario-coverage"@, none);
    assert(gap_rows(i) == g1 + g2 + g3 + g4 + g5 + g6 + g7 + g8);
    lemma_has_gap_concat(g1 + g2 + g3 + g4 + g5 + g6 + g7, g8, name);
    lemma_has_gap_concat(g1 + g2 + g3 + g4 + g5 + g6, g7, name);
    lemma_has_gap_concat(g1 + g2 + g3 + g4 + g5, g6, name);
    lemma_has_gap_concat(g1 + g2 + g3 + g4, g5, name);
    lemma_has_gap_concat(g1 + g2 + g3, g4, name);
    lemma_has_gap_concat(g1 + g2, g3, name);
    lemma_has_gap_concat(g1, g2, name);
    lemma_has_gap_row(!i.closure_complete, "closure-bounded"@, none, name);
    lemma_has_gap_row(!i.detected_effects, "detected-effects-absent"@, none, name);
    lemma_has_gap_row(true, "error-contracts-unrepresentable"@, none, name);
    lemma_has_gap_row(i.undescribed@.len() > 0, "no-description"@, texts(i.undescribed@), name);
    lemma_has_gap_row(i.silent_operations@.len() > 0, "no-effects"@, texts(i.silent_operations@), name);
    lemma_has_gap_row(!i.has_policies, "no-policies"@, none, name);
    lemma_has_gap_row(i.project_has_bindings && !i.has_bindings, "no-relevant-bindings"@, none, name);
    lemma_has_gap_row(!i.has_scenarios, "no-scenario-coverage"@, none, name);
}

/// Each gap of the closed vocabulary is reported exactly when its
/// condition holds: a bounded closure walk, no detected effects, always
/// the error-contract gap, roots without a description, operations
/// without effects, no policies, bindings declared but none selected,
/// and no scenarios section selected.
pub proof fn lemma_gaps_report_exactly_their_conditions(i: GapInputs)
    ensures
        has_gap(gap_rows(i), "closure-bounded"@) <==> !i.closure_complete,
        has_gap(gap_rows(i), "detected-effects-absent"@) <==> !i.detected_effects,
        has_gap(gap_rows(i), "error-contracts-unrepresentable"@),
        has_gap(gap_rows(i), "no-description"@) <==> i.undescribed@.len() > 0,
        has_gap(gap_rows(i), "no-effects"@) <==> i.silent_operations@.len() > 0,
        has_gap(gap_rows(i), "no-policies"@) <==> !i.has_policies,
        has_gap(gap_rows(i), "no-relevant-bindings"@) <==> (i.project_has_bindings && !i.has_bindings),
        has_gap(gap_rows(i), "no-scenario-coverage"@) <==> !i.has_scenarios,
{
    reveal_strlit("closure-bounded");
    reveal_strlit("detected-effects-absent");
    reveal_strlit("error-contracts-unrepresentable");
    reveal_strlit("no-description");
    reveal_strlit("no-effects");
    reveal_strlit("no-policies");
    reveal_strlit("no-relevant-bindings");
    reveal_strlit("no-scenario-coverage");
    assert("closure-bounded"@.len() == 15);
    assert("detected-effects-absent"@.len() == 23);
    assert("error-contracts-unrepresentable"@.len() == 31);
    assert("no-description"@.len() == 14);
    assert("no-effects"@.len() == 10);
    assert("no-policies"@.len() == 11);
    assert("no-relevant-bindings"@.len() == 20);
    assert("no-scenario-coverage"@.len() == 20);
    assert("no-relevant-bindings"@[3] != "no-scenario-coverage"@[3]);
    lemma_gap_rows_membership(i, "closure-bounded"@);
    lemma_gap_rows_membership(i, "detected-effects-absent"@);
    lemma_gap_rows_membership(i, "error-contracts-unrepresentable"@);
    lemma_gap_rows_membership(i, "no-description"@);
    lemma_gap_rows_membership(i, "no-effects"@);
    lemma_gap_rows_membership(i, "no-policies"@);
    lemma_gap_rows_membership(i, "no-relevant-bindings"@);
    lemma_gap_rows_membership(i, "no-scenario-coverage"@);
}

} // verus!
