//! Attaching native tests and gates to a recorded binding, and
//! registering support artifacts in the ownership manifest. Both act on
//! a loaded registry and hand back the registry to persist.

use vstd::prelude::*;
use crate::text::{str_eq, text_le};
use crate::sorting::{Ordered, sort, sorted};
use crate::diagnostics::set::DiagnosticSet;
use super::diagnostic::{declaration_invalid_set, declaration_limit_set, selector_unknown_set, token_set, echo_of};
use super::types::{ConformedRegistry, ConformedSymbol, HistoryEntry, HistoryEvent, SupportArtifact, SupportKind,
    SupportLifecycle};
use super::update::{ArtifactContent, RecordView, artifact_content, artifact_contents, index_of_id, index_of_path,
    permutes_texts, record_view, record_views, texts, upsert};
use super::version::{MAX_ATTACHMENTS, MAX_HISTORY, MAX_SUPPORT_ARTIFACTS, external_id, is_external_id, is_sha256,
    is_support_path, support_path};
use super::wire::{RefusalView, refusal_set};
use crate::digest::is_digest_text;

verus! {

// ---------------------------------------------------------------------
// Attach

/// The list after appending each new text not already present, in order.
pub open spec fn appended(s: Seq<Seq<char>>, new: Seq<Seq<char>>) -> Seq<Seq<char>>
    decreases new.len(),
{
    if new.len() == 0 {
        s
    } else {
        let prev = appended(s, new.drop_last());
        if prev.contains(new.last()) { prev } else { prev.push(new.last()) }
    }
}

/// The first attachment id that is not a verbatim external id.
pub open spec fn first_bad_id(ids: Seq<Seq<char>>) -> Option<Seq<char>>
    decreases ids.len(),
{
    if ids.len() == 0 {
        None
    } else if !external_id(ids[0]) {
        Some(ids[0])
    } else {
        first_bad_id(ids.drop_first())
    }
}

/// The receipt of one attach.
#[derive(Clone, Debug, PartialEq, Eq)]
pub struct AttachReceipt {
    pub status: &'static str,
    pub operation: &'static str,
    pub mode: &'static str,
    pub symbol: String,
    pub native_tests: Vec<String>,
    pub gates: Vec<String>,
}

/// The history after one `attached` entry, keeping the newest
/// `MAX_HISTORY` entries.
pub open spec fn attached_history(h: Seq<(HistoryEvent, Seq<char>)>, revision: Seq<char>) -> Seq<(HistoryEvent, Seq<char>)> {
    let full = h.push((HistoryEvent::Attached, revision));
    if full.len() > MAX_HISTORY { full.skip(full.len() - MAX_HISTORY) } else { full }
}

/// What attaching gives: an unknown symbol, a bad id, an exceeded
/// bound, or the record with its sorted merged attachments (and, when
/// they changed, one more history entry).
pub open spec fn attach_outcome(reg: ConformedRegistry, symbol: Seq<char>, tests: Seq<Seq<char>>, gates: Seq<Seq<char>>,
    r: Result<(ConformedRegistry, AttachReceipt, bool), DiagnosticSet>) -> bool {
    let views = record_views(reg.symbols@);
    let k = index_of_id(views, symbol);
    if k >= views.len() {
        r matches Err(e) && token_set(e@, "contracted.unknown-symbol"@, Some(echo_of(symbol)), "symbol"@, symbol)
    } else if first_bad_id(tests + gates) is Some {
        r matches Err(e) && refusal_set(e@, RefusalView::Invalid("attachment-id"@, first_bad_id(tests + gates)))
    } else {
        let all_tests = appended(views[k].native_tests, tests);
        let all_gates = appended(views[k].gates, gates);
        if all_tests.len() > MAX_ATTACHMENTS {
            r matches Err(e) && refusal_set(e@, RefusalView::Limit("native-tests"@, all_tests.len()))
        } else if all_gates.len() > MAX_ATTACHMENTS {
            r matches Err(e) && refusal_set(e@, RefusalView::Limit("gates"@, all_gates.len()))
        } else {
            r matches Ok((out, receipt, changed)) && {
                let new_tests = texts(receipt.native_tests@);
                let new_gates = texts(receipt.gates@);
                &&& sorted(receipt.native_tests@)
                &&& permutes_texts(receipt.native_tests@, all_tests)
                &&& sorted(receipt.gates@)
                &&& permutes_texts(receipt.gates@, all_gates)
                &&& changed == (new_tests != views[k].native_tests || new_gates != views[k].gates)
                &&& receipt.symbol@ == symbol
                &&& receipt.status@ == "valid"@ && receipt.operation@ == "conform"@ && receipt.mode@ == "attach"@
                &&& if changed {
                    &&& record_views(out.symbols@) == views.update(k, RecordView {
                        native_tests: new_tests,
                        gates: new_gates,
                        history: attached_history(views[k].history, reg.revision@),
                        ..views[k]
                    })
                    &&& out.artifacts == reg.artifacts
                    &&& out.revision == reg.revision
                    &&& out.project == reg.project
                } else {
                    out == reg
                }
            }
        }
    }
}

/// Everything in `s` and everything in `new` is in the appended list.
proof fn lemma_appended_contains(s: Seq<Seq<char>>, new: Seq<Seq<char>>)
    ensures
        forall|x: Seq<char>| s.contains(x) ==> #[trigger] appended(s, new).contains(x),
        forall|i: int| 0 <= i < new.len() ==> appended(s, new).contains(#[trigger] new[i]),
    decreases new.len(),
{
    if new.len() > 0 {
        let prev = appended(s, new.drop_last());
        lemma_appended_contains(s, new.drop_last());
        assert forall|i: int| 0 <= i < new.len() implies appended(s, new).contains(#[trigger] new[i]) by {
            if i < new.len() - 1 {
                assert(new.drop_last()[i] == new[i]);
                assert(prev.contains(new[i]));
                if !prev.contains(new.last()) {
                    let m = choose|m: int| 0 <= m < prev.len() && prev[m] == new[i];
                    assert(prev.push(new.last())[m] == new[i]);
                }
            } else if !prev.contains(new.last()) {
                assert(prev.push(new.last())[prev.len() as int] == new.last());
            }
        }
        assert forall|x: Seq<char>| s.contains(x) implies #[trigger] appended(s, new).contains(x) by {
            assert(prev.contains(x));
            if !prev.contains(new.last()) {
                let m = choose|m: int| 0 <= m < prev.len() && prev[m] == x;
                assert(prev.push(new.last())[m] == x);
            }
        }
    }
}

/// Appending texts that are all present already changes nothing.
proof fn lemma_appended_present(s: Seq<Seq<char>>, new: Seq<Seq<char>>)
    requires
        forall|i: int| 0 <= i < new.len() ==> s.contains(#[trigger] new[i]),
    ensures
        appended(s, new) == s,
    decreases new.len(),
{
    if new.len() > 0 {
        assert forall|i: int| 0 <= i < new.drop_last().len() implies s.contains(#[trigger] new.drop_last()[i]) by {
            assert(new.drop_last()[i] == new[i]);
        }
        lemma_appended_present(s, new.drop_last());
        assert(s.contains(new[new.len() - 1]));
    }
}

/// Two lists in byte order holding the same texts are the same list.
proof fn lemma_sorted_texts_unique(a: Seq<Seq<char>>, b: Seq<Seq<char>>)
    requires
        a.to_multiset() == b.to_multiset(),
        forall|i: int, j: int| 0 <= i < j < a.len() ==> text_le(#[trigger] a[i], #[trigger] a[j]),
        forall|i: int, j: int| 0 <= i < j < b.len() ==> text_le(#[trigger] b[i], #[trigger] b[j]),
    ensures
        a == b,
    decreases a.len(),
{
    broadcast use vstd::seq_lib::group_to_multiset_ensures;
    assert(a.len() == a.to_multiset().len());
    assert(b.len() == b.to_multiset().len());
    if a.len() == 0 {
        assert(a =~= b);
    } else {
        assert(a.contains(a[0]));
        assert(b.to_multiset().count(a[0]) > 0);
        let m = choose|m: int| 0 <= m < b.len() && b[m] == a[0];
        assert(b.contains(b[0]));
        assert(a.to_multiset().count(b[0]) > 0);
        let n = choose|n: int| 0 <= n < a.len() && a[n] == b[0];
        crate::text::lemma_text_le_order(a[0], b[0], a[0]);
        crate::text::lemma_text_le_order(a[0], a[0], a[0]);
        crate::text::lemma_text_le_order(b[0], b[0], b[0]);
        if m > 0 {
            assert(text_le(b[0], b[m]));
        }
        if n > 0 {
            assert(text_le(a[0], a[n]));
        }
        assert(a[0] == b[0]);
        assert(a =~= seq![a[0]] + a.drop_first());
        assert(b =~= seq![b[0]] + b.drop_first());
        assert(a.drop_first() =~= a.remove(0));
        assert(b.drop_first() =~= b.remove(0));
        assert(a.remove(0).to_multiset() =~= a.to_multiset().remove(a[0]));
        assert(b.remove(0).to_multiset() =~= b.to_multiset().remove(b[0]));
        assert forall|i: int, j: int| 0 <= i < j < a.drop_first().len() implies text_le(#[trigger] a.drop_first()[i], #[trigger] a.drop_first()[j]) by {
            assert(text_le(a[i + 1], a[j + 1]));
        }
        assert forall|i: int, j: int| 0 <= i < j < b.drop_first().len() implies text_le(#[trigger] b.drop_first()[i], #[trigger] b.drop_first()[j]) by {
            assert(text_le(b[i + 1], b[j + 1]));
        }
        lemma_sorted_texts_unique(a.drop_first(), b.drop_first());
    }
}

/// Texts of a sorted list of strings are in byte order.
proof fn lemma_sorted_strings(s: Seq<String>)
    requires
        sorted(s),
    ensures
        forall|i: int, j: int| 0 <= i < j < texts(s).len() ==> text_le(#[trigger] texts(s)[i], #[trigger] texts(s)[j]),
{
    assert forall|i: int, j: int| 0 <= i < j < texts(s).len() implies text_le(#[trigger] texts(s)[i], #[trigger] texts(s)[j]) by {
        assert(s[i].spec_le(&s[j]));
    }
}

/// A permuted list of strings holds the same texts.
proof fn lemma_permuted_texts(out: Seq<String>, ids: Seq<Seq<char>>)
    requires
        permutes_texts(out, ids),
    ensures
        texts(out).to_multiset() == ids.to_multiset(),
{
    let u = choose|u: Seq<String>| #[trigger] texts(u) == ids && u.to_multiset() == out.to_multiset();
    crate::diagnostics::normalize::lemma_map_permutation(u, out, |t: String| t@);
}

/// One side of a second attach: the attachments recorded after the
/// first already hold every given id, so the second leaves them as they
/// are.
proof fn lemma_attach_again_side(before: Seq<Seq<char>>, given: Seq<Seq<char>>, first: Seq<String>, second: Seq<String>)
    requires
        sorted(first),
        permutes_texts(first, appended(before, given)),
        sorted(second),
        permutes_texts(second, appended(texts(first), given)),
    ensures
        appended(texts(first), given) == texts(first),
        texts(second) == texts(first),
{
    broadcast use vstd::seq_lib::group_to_multiset_ensures;
    let t1 = texts(first);
    lemma_permuted_texts(first, appended(before, given));
    lemma_appended_contains(before, given);
    assert forall|i: int| 0 <= i < given.len() implies t1.contains(#[trigger] given[i]) by {
        assert(appended(before, given).contains(given[i]));
        assert(t1.to_multiset().count(given[i]) > 0);
    }
    lemma_appended_present(t1, given);
    lemma_permuted_texts(second, t1);
    lemma_sorted_strings(first);
    lemma_sorted_strings(second);
    lemma_sorted_texts_unique(texts(second), t1);
}

/// Appending to a list without repeats keeps it without repeats.
proof fn lemma_appended_distinct(s: Seq<Seq<char>>, new: Seq<Seq<char>>)
    requires
        s.no_duplicates(),
    ensures
        appended(s, new).no_duplicates(),
    decreases new.len(),
{
    if new.len() > 0 {
        lemma_appended_distinct(s, new.drop_last());
        let prev = appended(s, new.drop_last());
        if !prev.contains(new.last()) {
            assert forall|i: int, j: int| 0 <= i < prev.push(new.last()).len() && 0 <= j < prev.push(new.last()).len()
                && i != j implies prev.push(new.last())[i] != prev.push(new.last())[j] by {
                if i < prev.len() && j < prev.len() {
                } else if i < prev.len() {
                    assert(prev[i] != new.last());
                } else {
                    assert(prev[j] != new.last());
                }
            }
        }
    }
}

/// One attached list: every earlier and every given id is in it, it is
/// sorted, and it has no repeats when the earlier list had none.
proof fn lemma_attached_list(before: Seq<Seq<char>>, given: Seq<Seq<char>>, out: Seq<String>)
    requires
        sorted(out),
        permutes_texts(out, appended(before, given)),
    ensures
        forall|i: int| 0 <= i < given.len() ==> texts(out).contains(#[trigger] given[i]),
        forall|i: int| 0 <= i < before.len() ==> texts(out).contains(#[trigger] before[i]),
        forall|i: int, j: int| 0 <= i < j < texts(out).len() ==> text_le(#[trigger] texts(out)[i], #[trigger] texts(out)[j]),
        before.no_duplicates() ==> texts(out).no_duplicates(),
{
    broadcast use vstd::seq_lib::group_to_multiset_ensures;
    let all = appended(before, given);
    let t = texts(out);
    lemma_permuted_texts(out, all);
    lemma_appended_contains(before, given);
    lemma_sorted_strings(out);
    assert forall|i: int| 0 <= i < given.len() implies t.contains(#[trigger] given[i]) by {
        assert(all.contains(given[i]));
        assert(t.to_multiset().count(given[i]) > 0);
    }
    assert forall|i: int| 0 <= i < before.len() implies t.contains(#[trigger] before[i]) by {
        assert(before.contains(before[i]));
        assert(all.contains(before[i]));
        assert(t.to_multiset().count(before[i]) > 0);
    }
    if before.no_duplicates() {
        lemma_appended_distinct(before, given);
        all.lemma_multiset_has_no_duplicates();
        t.lemma_multiset_has_no_duplicates_conv();
    }
}

/// A successful attach reports sorted lists that hold every given id
/// and every id attached before; when the record's lists had no repeats,
/// the reported lists have none either.
pub proof fn lemma_attach_lists(reg: ConformedRegistry, symbol: Seq<char>, tests: Seq<Seq<char>>,
    gates: Seq<Seq<char>>, r: Result<(ConformedRegistry, AttachReceipt, bool), DiagnosticSet>)
    requires
        attach_outcome(reg, symbol, tests, gates, r),
        r is Ok,
    ensures
        ({
            let views = record_views(reg.symbols@);
            let k = index_of_id(views, symbol);
            let t = texts(r->Ok_0.1.native_tests@);
            let g = texts(r->Ok_0.1.gates@);
            &&& forall|i: int| 0 <= i < tests.len() ==> t.contains(#[trigger] tests[i])
            &&& forall|i: int| 0 <= i < gates.len() ==> g.contains(#[trigger] gates[i])
            &&& forall|i: int| 0 <= i < views[k].native_tests.len() ==> t.contains(#[trigger] views[k].native_tests[i])
            &&& forall|i: int| 0 <= i < views[k].gates.len() ==> g.contains(#[trigger] views[k].gates[i])
            &&& views[k].native_tests.no_duplicates() ==> t.no_duplicates()
            &&& views[k].gates.no_duplicates() ==> g.no_duplicates()
        }),
{
    let views = record_views(reg.symbols@);
    let k = index_of_id(views, symbol);
    super::update::lemma_index_of_id(views, symbol);
    let receipt = r->Ok_0.1;
    lemma_attached_list(views[k].native_tests, tests, receipt.native_tests@);
    lemma_attached_list(views[k].gates, gates, receipt.gates@);
}

/// Attaching the same native tests and gates a second time succeeds,
/// leaves the registry unchanged (no new history entry), and reports
/// the same sorted attachments as the first attach.
pub proof fn lemma_attach_idempotent(reg: ConformedRegistry, symbol: Seq<char>, tests: Seq<Seq<char>>,
    gates: Seq<Seq<char>>, first: Result<(ConformedRegistry, AttachReceipt, bool), DiagnosticSet>,
    second: Result<(ConformedRegistry, AttachReceipt, bool), DiagnosticSet>)
    requires
        attach_outcome(reg, symbol, tests, gates, first),
        first is Ok,
        attach_outcome(first->Ok_0.0, symbol, tests, gates, second),
    ensures
        second matches Ok((out, receipt, changed)) && {
            &&& !changed
            &&& out == first->Ok_0.0
            &&& texts(receipt.native_tests@) == texts(first->Ok_0.1.native_tests@)
            &&& texts(receipt.gates@) == texts(first->Ok_0.1.gates@)
        },
{
    broadcast use vstd::seq_lib::group_to_multiset_ensures;
    let views = record_views(reg.symbols@);
    let k = index_of_id(views, symbol);
    super::update::lemma_index_of_id(views, symbol);
    let (out1, receipt1, changed1) = first->Ok_0;
    let t1 = texts(receipt1.native_tests@);
    let g1 = texts(receipt1.gates@);
    let views1 = record_views(out1.symbols@);
    super::update::lemma_index_of_id(views1, symbol);
    if changed1 {
        assert(views1.len() == views.len());
        assert forall|j: int| 0 <= j < views.len() implies #[trigger] views1[j].id == views[j].id by {
            if j == k {
            } else {
                assert(views1[j] == views[j]);
            }
        }
        if index_of_id(views1, symbol) < k {
            assert(views[index_of_id(views1, symbol)].id == symbol);
        }
        if index_of_id(views1, symbol) > k {
            assert(views1[k].id == symbol);
        }
        assert(index_of_id(views1, symbol) == k);
        assert(views1[k].native_tests == t1);
        assert(views1[k].gates == g1);
    } else {
        assert(out1 == reg);
    }
    let all_tests = appended(views[k].native_tests, tests);
    let all_gates = appended(views[k].gates, gates);
    lemma_permuted_texts(receipt1.native_tests@, all_tests);
    lemma_permuted_texts(receipt1.gates@, all_gates);
    assert(t1.len() == all_tests.len()) by {
        assert(t1.len() == t1.to_multiset().len());
        assert(all_tests.len() == all_tests.to_multiset().len());
    }
    assert(g1.len() == all_gates.len()) by {
        assert(g1.len() == g1.to_multiset().len());
        assert(all_gates.len() == all_gates.to_multiset().len());
    }
    lemma_permuted_texts(receipt1.native_tests@, all_tests);
    lemma_appended_contains(views[k].native_tests, tests);
    assert forall|i: int| 0 <= i < tests.len() implies t1.contains(#[trigger] tests[i]) by {
        assert(all_tests.contains(tests[i]));
        assert(t1.to_multiset().count(tests[i]) > 0);
    }
    lemma_appended_present(t1, tests);
    lemma_appended_contains(views[k].gates, gates);
    assert forall|i: int| 0 <= i < gates.len() implies g1.contains(#[trigger] gates[i]) by {
        assert(all_gates.contains(gates[i]));
        assert(g1.to_multiset().count(gates[i]) > 0);
    }
    lemma_appended_present(g1, gates);
    let (out2, receipt2, changed2) = second->Ok_0;
    lemma_attach_again_side(views[k].native_tests, tests, receipt1.native_tests@, receipt2.native_tests@);
    lemma_attach_again_side(views[k].gates, gates, receipt1.gates@, receipt2.gates@);
}

fn position_of(records: &Vec<ConformedSymbol>, id: &str) -> (r: usize)
    ensures
        r == index_of_id(record_views(records@), id@),
{
    let ghost vs = record_views(records@);
    let mut i: usize = 0;
    while i < records.len()
        invariant
            vs == record_views(records@),
            vs.len() == records@.len(),
            i <= records@.len(),
            forall|j: int| 0 <= j < i ==> vs[j].id != id@,
        decreases records@.len() - i,
    {
        if str_eq(records[i].id.as_str(), id) {
            proof { lemma_first_id(vs, id@, i as int); }
            return i;
        }
        assert(vs[i as int].id == records@[i as int].id@);
        i = i + 1;
    }
    proof { lemma_first_id(vs, id@, i as int); }
    i
}

proof fn lemma_first_id(s: Seq<RecordView>, id: Seq<char>, i: int)
    requires
        0 <= i <= s.len(),
        forall|j: int| 0 <= j < i ==> s[j].id != id,
        i < s.len() ==> s[i].id == id,
    ensures
        index_of_id(s, id) == i,
    decreases s.len(),
{
    if s.len() > 0 && i > 0 {
        assert forall|j: int| 0 <= j < i - 1 implies s.drop_first()[j].id != id by {
            assert(s.drop_first()[j] == s[j + 1]);
        }
        lemma_first_id(s.drop_first(), id, i - 1);
    }
}

/// Append each text of `new` not already in `out`.
fn append_new(out: &mut Vec<String>, new: &[String])
    ensures
        texts(final(out)@) == appended(texts(old(out)@), texts(new@)),
{
    let ghost start = texts(out@);
    let mut i: usize = 0;
    assert(new@.take(0) =~= Seq::<String>::empty());
    while i < new.len()
        invariant
            i <= new@.len(),
            texts(out@) == appended(start, texts(new@.take(i as int))),
        decreases new@.len() - i,
    {
        let ghost before = out@;
        assert(texts(new@.take(i + 1)).drop_last() =~= texts(new@.take(i as int)));
        assert(texts(new@.take(i + 1)).last() == new@[i as int]@);
        let mut present = false;
        let mut j: usize = 0;
        while j < out.len()
            invariant
                i < new@.len(),
                out@ == before,
                j <= out@.len(),
                present == exists|m: int| 0 <= m < j && texts(out@)[m] == new@[i as int]@,
            decreases out@.len() - j,
        {
            assert(texts(out@)[j as int] == out@[j as int]@);
            if str_eq(out[j].as_str(), new[i].as_str()) {
                present = true;
            }
            j = j + 1;
        }
        if !present {
            out.push(new[i].clone());
            assert(texts(out@) =~= texts(before).push(new@[i as int]@));
        } else {
            assert(texts(out@).contains(new@[i as int]@));
        }
        i = i + 1;
    }
    assert(new@.take(new@.len() as int) =~= new@);
}

/// The first attachment id that is not a verbatim external id.
fn find_bad_id<'a>(tests: &'a [String], gates: &'a [String]) -> (r: Option<&'a String>)
    ensures
        match first_bad_id(texts(tests@) + texts(gates@)) {
            Some(t) => r matches Some(s) && s@ == t,
            None => r is None,
        },
{
    let ghost all = texts(tests@) + texts(gates@);
    let mut i: usize = 0;
    assert(all.subrange(0, all.len() as int) =~= all);
    while i < tests.len()
        invariant
            all == texts(tests@) + texts(gates@),
            i <= tests@.len(),
            first_bad_id(all) == first_bad_id(all.subrange(i as int, all.len() as int)),
        decreases tests@.len() - i,
    {
        let ghost rest = all.subrange(i as int, all.len() as int);
        assert(rest.drop_first() =~= all.subrange(i + 1, all.len() as int));
        assert(rest[0] == tests@[i as int]@);
        if !is_external_id(tests[i].as_str()) {
            return Some(&tests[i]);
        }
        i = i + 1;
    }
    let mut j: usize = 0;
    while j < gates.len()
        invariant
            all == texts(tests@) + texts(gates@),
            j <= gates@.len(),
            first_bad_id(all) == first_bad_id(all.subrange(tests@.len() + j, all.len() as int)),
        decreases gates@.len() - j,
    {
        let ghost rest = all.subrange(tests@.len() + j, all.len() as int);
        assert(rest.drop_first() =~= all.subrange(tests@.len() + j + 1, all.len() as int));
        assert(rest[0] == gates@[j as int]@);
        if !is_external_id(gates[j].as_str()) {
            return Some(&gates[j]);
        }
        j = j + 1;
    }
    assert(all.subrange(all.len() as int, all.len() as int) =~= Seq::<Seq<char>>::empty());
    None
}

/// Whether two lists hold the same texts in the same order.
fn same_texts(a: &Vec<String>, b: &Vec<String>) -> (r: bool)
    ensures
        r == (texts(a@) == texts(b@)),
{
    if a.len() != b.len() {
        assert(texts(a@).len() != texts(b@).len());
        return false;
    }
    let mut i: usize = 0;
    while i < a.len()
        invariant
            a@.len() == b@.len(),
            i <= a@.len(),
            forall|j: int| 0 <= j < i ==> a@[j]@ == b@[j]@,
        decreases a@.len() - i,
    {
        if !str_eq(a[i].as_str(), b[i].as_str()) {
            assert(texts(a@)[i as int] != texts(b@)[i as int]);
            return false;
        }
        i = i + 1;
    }
    assert(texts(a@) =~= texts(b@));
    true
}

/// Attach verbatim native-test and gate ids to one recorded symbol; the
/// flag says whether the registry changed and must be persisted.
pub fn attach(registry: ConformedRegistry, symbol_id: &str, native_tests: &[String], gates: &[String])
    -> (r: Result<(ConformedRegistry, AttachReceipt, bool), DiagnosticSet>)
    ensures
        attach_outcome(registry, symbol_id@, texts(native_tests@), texts(gates@), r),
{
    let ghost reg = registry;
    let ghost views = record_views(registry.symbols@);
    let position = position_of(&registry.symbols, symbol_id);
    proof { super::update::lemma_index_of_id(views, symbol_id@); }
    if position >= registry.symbols.len() {
        return Err(selector_unknown_set(symbol_id));
    }
    match find_bad_id(native_tests, gates) {
        Some(bad) => return Err(declaration_invalid_set("attachment-id", Some(bad.as_str()))),
        None => {},
    }
    let mut tests = clone_texts(&registry.symbols[position].native_tests);
    assert(texts(tests@) == views[position as int].native_tests);
    append_new(&mut tests, native_tests);
    let ghost unsorted_tests = tests@;
    let tests = sort(tests);
    if tests.len() > MAX_ATTACHMENTS {
        return Err(declaration_limit_set("native-tests", tests.len()));
    }
    let mut attached_gates = clone_texts(&registry.symbols[position].gates);
    assert(texts(attached_gates@) == views[position as int].gates);
    append_new(&mut attached_gates, gates);
    let ghost unsorted_gates = attached_gates@;
    let attached_gates = sort(attached_gates);
    if attached_gates.len() > MAX_ATTACHMENTS {
        return Err(declaration_limit_set("gates", attached_gates.len()));
    }
    let changed = !same_texts(&tests, &registry.symbols[position].native_tests)
        || !same_texts(&attached_gates, &registry.symbols[position].gates);
    let receipt_tests = clone_texts(&tests);
    let receipt_gates = clone_texts(&attached_gates);
    let receipt = AttachReceipt {
        status: "valid",
        operation: "conform",
        mode: "attach",
        symbol: symbol_id.to_owned(),
        native_tests: receipt_tests,
        gates: receipt_gates,
    };
    proof {
        reveal_strlit("valid");
        reveal_strlit("conform");
        reveal_strlit("attach");
        assert(permutes_texts(receipt.native_tests@, appended(views[position as int].native_tests, texts(native_tests@))))
            by {
            assert(texts(unsorted_tests) == appended(views[position as int].native_tests, texts(native_tests@)));
        }
        assert(permutes_texts(receipt.gates@, appended(views[position as int].gates, texts(gates@)))) by {
            assert(texts(unsorted_gates) == appended(views[position as int].gates, texts(gates@)));
        }
    }
    if !changed {
        return Ok((registry, receipt, false));
    }
    let mut out = registry;
    let mut record = out.symbols.remove(position);
    let ghost removed = out.symbols@;
    let ghost old_history = record.history@;
    record.native_tests = tests;
    record.gates = attached_gates;
    record.history.push(HistoryEntry { event: HistoryEvent::Attached, revision: out.revision.clone() });
    if record.history.len() > MAX_HISTORY {
        let excess = record.history.len() - MAX_HISTORY;
        record.history = drop_front(record.history, excess);
    }
    out.symbols.insert(position, record);
    proof {
        let h = record_view(out.symbols@[position as int]).history;
        assert(h =~= attached_history(views[position as int].history, reg.revision@));
        assert(record_views(out.symbols@) =~= views.update(position as int, RecordView {
            native_tests: texts(receipt.native_tests@),
            gates: texts(receipt.gates@),
            history: attached_history(views[position as int].history, reg.revision@),
            ..views[position as int]
        })) by {
            assert forall|j: int| 0 <= j < out.symbols@.len() implies record_views(out.symbols@)[j]
                == views.update(position as int, RecordView {
                    native_tests: texts(receipt.native_tests@),
                    gates: texts(receipt.gates@),
                    history: attached_history(views[position as int].history, reg.revision@),
                    ..views[position as int]
                })[j] by {
                if j < position {
                    assert(out.symbols@[j] == removed[j]);
                } else if j > position {
                    assert(out.symbols@[j] == removed[j - 1]);
                }
            }
        }
    }
    Ok((out, receipt, true))
}

/// A copy of texts.
fn clone_texts(s: &Vec<String>) -> (r: Vec<String>)
    ensures
        r@ == s@,
{
    let mut out: Vec<String> = Vec::new();
    let mut i: usize = 0;
    while i < s.len()
        invariant
            i <= s@.len(),
            out@ == s@.take(i as int),
        decreases s@.len() - i,
    {
        out.push(s[i].clone());
        assert(out@ =~= s@.take(i + 1));
        i = i + 1;
    }
    assert(s@.take(s@.len() as int) =~= s@);
    out
}

/// The entries after the first `n`.
fn drop_front(v: Vec<HistoryEntry>, n: usize) -> (r: Vec<HistoryEntry>)
    requires
        n <= v@.len(),
    ensures
        r@ == v@.skip(n as int),
{
    let mut out: Vec<HistoryEntry> = Vec::new();
    let mut rest = v;
    let ghost original = rest@;
    let total = rest.len();
    assert(original.len() == total);
    let mut i: usize = 0;
    while rest.len() > 0
        invariant
            i <= original.len(),
            i + rest@.len() == original.len(),
            original.len() <= usize::MAX,
            rest@ == original.skip(i as int),
            i <= n ==> out@.len() == 0,
            i > n ==> out@ == original.subrange(n as int, i as int),
            n <= original.len(),
        decreases rest@.len(),
    {
        let e = rest.remove(0);
        assert(rest@ =~= original.skip(i + 1));
        if i >= n {
            out.push(e);
            assert(out@ =~= original.subrange(n as int, i + 1));
        }
        i = i + 1;
    }
    assert(out@ =~= original.skip(n as int));
    out
}

// ---------------------------------------------------------------------
// Support artifacts

/// The receipt of one support registration.
#[derive(Clone, Debug, PartialEq, Eq)]
pub struct SupportReceipt {
    pub status: &'static str,
    pub operation: &'static str,
    pub mode: &'static str,
    pub symbol: String,
    pub path: String,
    pub kind: SupportKind,
    pub lifecycle: SupportLifecycle,
}

/// The registry after registering one artifact: an artifact at the same
/// path is replaced in place; a new one is appended and the list ends
/// sorted by path.
pub open spec fn supported_registry(reg: ConformedRegistry, out: ConformedRegistry, a: ArtifactContent) -> bool {
    let arts = artifact_contents(reg.artifacts@);
    let k = index_of_path(arts, a.path);
    &&& out.symbols == reg.symbols
    &&& out.schema_version == reg.schema_version && out.identity == reg.identity && out.project == reg.project
    &&& out.mode == reg.mode && out.adapter == reg.adapter && out.revision == reg.revision
    &&& if k < arts.len() {
        artifact_contents(out.artifacts@) == arts.update(k, a)
    } else {
        sorted(out.artifacts@) && super::update::permutes_artifacts(out.artifacts@, arts.push(a))
    }
}

/// What registering a support artifact gives: a refused path or digest,
/// the load failure, a missing registry, an unknown owner, an exceeded
/// bound, or the updated registry with its receipt.
pub open spec fn support_outcome(loaded: Result<Option<ConformedRegistry>, DiagnosticSet>, symbol: Seq<char>,
    kind: SupportKind, path: Seq<char>, lifecycle: SupportLifecycle, digest: Option<Seq<char>>,
    r: Result<(ConformedRegistry, SupportReceipt), DiagnosticSet>) -> bool {
    let a = ArtifactContent { symbol, kind, path, lifecycle, digest };
    if !support_path(path) {
        r matches Err(e) && refusal_set(e@, RefusalView::Invalid("support-path-refused"@, Some(path)))
    } else if digest matches Some(d) && !is_digest_text(d) {
        r matches Err(e) && refusal_set(e@, RefusalView::Invalid("artifact-digest"@, Some(path)))
    } else {
        match loaded {
            Err(e) => r == Err::<(ConformedRegistry, SupportReceipt), DiagnosticSet>(e),
            Ok(None) => r matches Err(e) && token_set(e@, "contracted.registry-io"@, None, "detail"@, "registry-missing"@),
            Ok(Some(reg)) => {
                let arts = artifact_contents(reg.artifacts@);
                if index_of_id(record_views(reg.symbols@), symbol) >= reg.symbols@.len() {
                    r matches Err(e) && token_set(e@, "contracted.unknown-symbol"@, Some(echo_of(symbol)), "symbol"@, symbol)
                } else if index_of_path(arts, path) >= arts.len() && arts.len() + 1 > MAX_SUPPORT_ARTIFACTS {
                    r matches Err(e) && refusal_set(e@, RefusalView::Limit("artifacts"@, arts.len() + 1))
                } else {
                    r matches Ok((out, receipt)) && {
                        &&& supported_registry(reg, out, a)
                        &&& receipt.status@ == "valid"@ && receipt.operation@ == "conform"@ && receipt.mode@ == "support"@
                        &&& receipt.symbol@ == symbol && receipt.path@ == path
                        &&& receipt.kind == kind && receipt.lifecycle == lifecycle
                    }
                }
            },
        }
    }
}

/// Register one support artifact in the ownership manifest: the path
/// must stay inside the generated home, a digest must be a SHA-256
/// digest, and the owner must be a recorded symbol. The registry is the
/// outcome of loading it, so that path and digest refusals come first.
pub fn support(loaded: Result<Option<ConformedRegistry>, DiagnosticSet>, symbol_id: &str, kind: SupportKind, path: &str,
    lifecycle: SupportLifecycle, digest: Option<&str>) -> (r: Result<(ConformedRegistry, SupportReceipt), DiagnosticSet>)
    ensures
        support_outcome(loaded, symbol_id@, kind, path@, lifecycle, match digest { Some(d) => Some(d@), None => None }, r),
{
    if !is_support_path(path) {
        return Err(declaration_invalid_set("support-path-refused", Some(path)));
    }
    match digest {
        Some(d) => if !is_sha256(d) {
            return Err(declaration_invalid_set("artifact-digest", Some(path)));
        },
        None => {},
    }
    let registry = match loaded {
        Err(e) => return Err(e),
        Ok(None) => return Err(super::diagnostic::registry_io_set("registry-missing")),
        Ok(Some(x)) => x,
    };
    let ghost reg = registry;
    let position = position_of(&registry.symbols, symbol_id);
    if position >= registry.symbols.len() {
        return Err(selector_unknown_set(symbol_id));
    }
    let artifact = SupportArtifact {
        symbol: symbol_id.to_owned(),
        kind,
        path: path.to_owned(),
        lifecycle,
        digest: match digest { Some(d) => Some(d.to_owned()), None => None },
    };
    let ghost a = artifact_content(artifact);
    let mut out = registry;
    let ghost arts = artifact_contents(out.artifacts@);
    let at = super::update::find_artifact(&out.artifacts, path);
    proof { super::update::lemma_index_of_path(arts, path@); }
    if at < out.artifacts.len() {
        let _ = out.artifacts.remove(at);
        let ghost removed = out.artifacts@;
        out.artifacts.insert(at, artifact);
        proof {
            assert(artifact_contents(out.artifacts@) =~= arts.update(at as int, a)) by {
                assert forall|j: int| 0 <= j < out.artifacts@.len() implies artifact_contents(out.artifacts@)[j]
                    == arts.update(at as int, a)[j] by {
                    if j < at {
                        assert(out.artifacts@[j] == removed[j]);
                    } else if j > at {
                        assert(out.artifacts@[j] == removed[j - 1]);
                    }
                }
            }
        }
    } else {
        out.artifacts.push(artifact);
        if out.artifacts.len() > MAX_SUPPORT_ARTIFACTS {
            return Err(declaration_limit_set("artifacts", out.artifacts.len()));
        }
        let ghost unsorted = out.artifacts@;
        assert(artifact_contents(unsorted) =~= arts.push(a));
        let artifacts = crate::sorting::sort(out.artifacts);
        out.artifacts = artifacts;
        assert(super::update::permutes_artifacts(out.artifacts@, arts.push(a))) by {
            assert(artifact_contents(unsorted) == arts.push(a));
        }
    }
    proof {
        reveal_strlit("valid");
        reveal_strlit("conform");
        reveal_strlit("support");
    }
    let receipt = SupportReceipt {
        status: "valid",
        operation: "conform",
        mode: "support",
        symbol: symbol_id.to_owned(),
        path: path.to_owned(),
        kind,
        lifecycle,
    };
    Ok((out, receipt))
}

} // verus!
