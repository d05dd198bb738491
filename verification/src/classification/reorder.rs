//! The attachment grammar reads a document only through its members and
//! treats its three lists as collections: reordering the top-level
//! members, or the entries of the classification, grant, and question
//! lists, changes neither whether a document is accepted nor which
//! attachments it declares.

use vstd::prelude::*;
use crate::json::{JsonValue, member};
use super::wire::{AttachmentView, Outcome, attachment_matches, attachment_outcome, classification_entry_error,
    classification_entry_matches, classification_items_error, classifications_match, classifications_outcome,
    declared_by_some, declares_some, declassifications_match, declassifications_outcome, entry_id, entry_subject,
    entry_to_kind, grant_declared_by_some, grant_declares_some, grant_entry_error, grant_entry_matches,
    grant_items_error, has_contradiction, has_duplicated_id, has_duplicated_subject, has_shared_grant_subject,
    list_member, question_declared_by_some, question_declares_some, question_entry_error, question_entry_matches,
    question_items_error, questions_match, questions_outcome, contradicting_subject, duplicated_subject};

verus! {

broadcast use vstd::seq_lib::group_to_multiset_ensures;

/// The member names of an object.
pub open spec fn member_names(v: JsonValue) -> Set<Seq<char>> {
    match v {
        JsonValue::Object(fields) => Set::new(|k: Seq<char>| exists|i: int| 0 <= i < fields@.len() && #[trigger] fields@[i].0@ == k),
        _ => Set::empty(),
    }
}

/// One of the three list members.
pub open spec fn is_list_key(k: Seq<char>) -> bool {
    k == "classifications"@ || k == "declassifications"@ || k == "openQuestions"@
}

/// `v2` is `v1` with its members, and the entries of its three lists,
/// in another order: the same member names, the same value under every
/// other member, and under each list member either no array in both or
/// arrays holding the same entries.
pub open spec fn reordered_document(v1: JsonValue, v2: JsonValue) -> bool {
    &&& v1 is Object
    &&& v2 is Object
    &&& member_names(v1) == member_names(v2)
    &&& forall|k: Seq<char>| !is_list_key(k) ==> #[trigger] member(v1, k) == member(v2, k)
    &&& forall|k: Seq<char>| is_list_key(k) ==> (#[trigger] list_member(v1, k) is Some <==> list_member(v2, k) is Some)
    &&& forall|k: Seq<char>| is_list_key(k) && #[trigger] list_member(v1, k) is Some
        ==> list_member(v1, k).unwrap().to_multiset() == list_member(v2, k).unwrap().to_multiset()
}

proof fn lemma_names_within(v1: JsonValue, v2: JsonValue, keys: Seq<Seq<char>>)
    requires
        v1 is Object,
        v2 is Object,
        member_names(v1) == member_names(v2),
        crate::json::members_within(v1, keys),
    ensures
        crate::json::members_within(v2, keys),
{
    let f1 = v1->Object_0@;
    let f2 = v2->Object_0@;
    assert forall|i: int| 0 <= i < f2.len() implies keys.contains(#[trigger] f2[i].0@) by {
        assert(member_names(v2).contains(f2[i].0@));
        assert(member_names(v1).contains(f2[i].0@));
        let j = choose|j: int| 0 <= j < f1.len() && #[trigger] f1[j].0@ == f2[i].0@;
        assert(keys.contains(f1[j].0@));
    }
}

/// Rearranged lists hold the same entries.
proof fn lemma_perm_contains(a: Seq<JsonValue>, b: Seq<JsonValue>)
    requires
        a.to_multiset() == b.to_multiset(),
    ensures
        forall|x: JsonValue| a.contains(x) <==> b.contains(x),
        a.len() == b.len(),
{
    assert(a.len() == a.to_multiset().len());
    assert(b.len() == b.to_multiset().len());
    assert forall|x: JsonValue| a.contains(x) <==> b.contains(x) by {
        if a.contains(x) {
            assert(a.to_multiset().count(x) > 0);
        }
        if b.contains(x) {
            assert(b.to_multiset().count(x) > 0);
        }
    }
}

/// Two entries at distinct places are related by a symmetric relation.
pub open spec fn some_pair(items: Seq<JsonValue>, p: spec_fn(JsonValue, JsonValue) -> bool) -> bool {
    exists|i: int, j: int| 0 <= i < j < items.len() && #[trigger] p(items[i], items[j])
}

proof fn lemma_pair_perm(a: Seq<JsonValue>, b: Seq<JsonValue>, p: spec_fn(JsonValue, JsonValue) -> bool)
    requires
        a.to_multiset() == b.to_multiset(),
        forall|x: JsonValue, y: JsonValue| #[trigger] p(x, y) == p(y, x),
        some_pair(a, p),
    ensures
        some_pair(b, p),
{
    lemma_perm_contains(a, b);
    let (i, j) = choose|i: int, j: int| 0 <= i < j < a.len() && #[trigger] p(a[i], a[j]);
    let x = a[i];
    let y = a[j];
    if x == y {
        crate::sorting::lemma_two_positions_count(a, i, j);
        let (s, t) = crate::sorting::lemma_count_two_positions(b, x);
        assert(p(b[s], b[t]));
    } else {
        assert(a.contains(x) && a.contains(y));
        let s = choose|s: int| 0 <= s < b.len() && b[s] == x;
        let t = choose|t: int| 0 <= t < b.len() && b[t] == y;
        if s < t {
            assert(p(b[s], b[t]));
        } else {
            assert(p(b[t], b[s]));
        }
    }
}

proof fn lemma_classification_error_free(items: Seq<JsonValue>)
    ensures
        classification_items_error(items) is None <==> forall|i: int| 0 <= i < items.len() ==> classification_entry_error(#[trigger] items[i]) is None,
    decreases items.len(),
{
    if items.len() > 0 {
        lemma_classification_error_free(items.drop_first());
        assert forall|i: int| 0 < i < items.len() implies #[trigger] items[i] == items.drop_first()[i - 1] by {}
    }
}

proof fn lemma_grant_error_free(items: Seq<JsonValue>)
    ensures
        grant_items_error(items) is None <==> forall|i: int| 0 <= i < items.len() ==> grant_entry_error(#[trigger] items[i]) is None,
    decreases items.len(),
{
    if items.len() > 0 {
        lemma_grant_error_free(items.drop_first());
        assert forall|i: int| 0 < i < items.len() implies #[trigger] items[i] == items.drop_first()[i - 1] by {}
    }
}

proof fn lemma_question_error_free(items: Seq<JsonValue>)
    ensures
        question_items_error(items) is None <==> forall|i: int| 0 <= i < items.len() ==> question_entry_error(#[trigger] items[i]) is None,
    decreases items.len(),
{
    if items.len() > 0 {
        lemma_question_error_free(items.drop_first());
        assert forall|i: int| 0 < i < items.len() implies #[trigger] items[i] == items.drop_first()[i - 1] by {}
    }
}

proof fn lemma_classifications_accept(a: Seq<JsonValue>, b: Seq<JsonValue>)
    requires
        a.to_multiset() == b.to_multiset(),
        classifications_outcome(a) is Accept,
    ensures
        classifications_outcome(b) is Accept,
{
    lemma_perm_contains(a, b);
    lemma_classification_error_free(a);
    lemma_classification_error_free(b);
    assert forall|i: int| 0 <= i < b.len() implies classification_entry_error(#[trigger] b[i]) is None by {
        assert(b.contains(b[i]));
        let k = choose|k: int| 0 <= k < a.len() && a[k] == b[i];
        assert(classification_entry_error(a[k]) is None);
    }
    let p = |x: JsonValue, y: JsonValue| entry_subject(x) == entry_subject(y);
    if has_duplicated_subject(b) {
        let i = choose|i: int| 0 <= i < b.len() && duplicated_subject(b, #[trigger] entry_subject(b[i]));
        let (s, t) = choose|s: int, t: int| 0 <= s < t < b.len() && #[trigger] entry_subject(b[s]) == entry_subject(b[i])
            && #[trigger] entry_subject(b[t]) == entry_subject(b[i]);
        assert(p(b[s], b[t]));
        assert(some_pair(b, p));
        lemma_pair_perm(b, a, p);
        let (u, v) = choose|u: int, v: int| 0 <= u < v < a.len() && #[trigger] p(a[u], a[v]);
        assert(duplicated_subject(a, entry_subject(a[u])));
        assert(has_duplicated_subject(a));
    }
}

proof fn lemma_grants_accept(a: Seq<JsonValue>, b: Seq<JsonValue>)
    requires
        a.to_multiset() == b.to_multiset(),
        declassifications_outcome(a) is Accept,
    ensures
        declassifications_outcome(b) is Accept,
{
    lemma_perm_contains(a, b);
    lemma_grant_error_free(a);
    lemma_grant_error_free(b);
    assert forall|i: int| 0 <= i < b.len() implies grant_entry_error(#[trigger] b[i]) is None by {
        assert(b.contains(b[i]));
        let k = choose|k: int| 0 <= k < a.len() && a[k] == b[i];
        assert(grant_entry_error(a[k]) is None);
    }
    let same = |x: JsonValue, y: JsonValue| entry_subject(x) == entry_subject(y);
    if has_shared_grant_subject(b) {
        let (s, t) = choose|s: int, t: int| 0 <= s < t < b.len() && #[trigger] entry_subject(b[s]) == #[trigger] entry_subject(b[t]);
        assert(same(b[s], b[t]));
        lemma_pair_perm(b, a, same);
        let (u, v) = choose|u: int, v: int| 0 <= u < v < a.len() && #[trigger] same(a[u], a[v]);
        assert(has_shared_grant_subject(a));
    }
    let clash = |x: JsonValue, y: JsonValue| entry_subject(x) == entry_subject(y) && entry_to_kind(x) != entry_to_kind(y);
    if has_contradiction(b) {
        let i = choose|i: int| 0 <= i < b.len() && contradicting_subject(b, #[trigger] entry_subject(b[i]));
        let (s, t) = choose|s: int, t: int| 0 <= s < t < b.len() && #[trigger] entry_subject(b[s]) == entry_subject(b[i])
            && #[trigger] entry_subject(b[t]) == entry_subject(b[i]) && entry_to_kind(b[s]) != entry_to_kind(b[t]);
        assert(clash(b[s], b[t]));
        lemma_pair_perm(b, a, clash);
        let (u, v) = choose|u: int, v: int| 0 <= u < v < a.len() && #[trigger] clash(a[u], a[v]);
        assert(contradicting_subject(a, entry_subject(a[u])));
        assert(has_contradiction(a));
    }
}

proof fn lemma_questions_accept(a: Seq<JsonValue>, b: Seq<JsonValue>)
    requires
        a.to_multiset() == b.to_multiset(),
        questions_outcome(a) is Accept,
    ensures
        questions_outcome(b) is Accept,
{
    lemma_perm_contains(a, b);
    lemma_question_error_free(a);
    lemma_question_error_free(b);
    assert forall|i: int| 0 <= i < b.len() implies question_entry_error(#[trigger] b[i]) is None by {
        assert(b.contains(b[i]));
        let k = choose|k: int| 0 <= k < a.len() && a[k] == b[i];
        assert(question_entry_error(a[k]) is None);
    }
    let same = |x: JsonValue, y: JsonValue| entry_id(x) == entry_id(y);
    if has_duplicated_id(b) {
        let (s, t) = choose|s: int, t: int| 0 <= s < t < b.len() && #[trigger] entry_id(b[s]) == #[trigger] entry_id(b[t]);
        assert(same(b[s], b[t]));
        lemma_pair_perm(b, a, same);
        let (u, v) = choose|u: int, v: int| 0 <= u < v < a.len() && #[trigger] same(a[u], a[v]);
        assert(has_duplicated_id(a));
    }
}

proof fn lemma_classifications_match_perm(a: Seq<JsonValue>, b: Seq<JsonValue>, out: Seq<super::wire::ClassificationView>)
    requires
        a.to_multiset() == b.to_multiset(),
        classifications_match(a, out),
    ensures
        classifications_match(b, out),
{
    lemma_perm_contains(a, b);
    assert forall|i: int| 0 <= i < out.len() implies declared_by_some(b, #[trigger] out[i]) by {
        let k = choose|k: int| 0 <= k < a.len() && #[trigger] classification_entry_matches(a[k], out[i]);
        assert(a.contains(a[k]));
        let m = choose|m: int| 0 <= m < b.len() && b[m] == a[k];
        assert(classification_entry_matches(b[m], out[i]));
    }
    assert forall|k: int| 0 <= k < b.len() implies declares_some(out, #[trigger] b[k]) by {
        assert(b.contains(b[k]));
        let m = choose|m: int| 0 <= m < a.len() && a[m] == b[k];
        assert(declares_some(out, a[m]));
    }
}

proof fn lemma_grants_match_perm(a: Seq<JsonValue>, b: Seq<JsonValue>, out: Seq<super::wire::DeclassificationView>)
    requires
        a.to_multiset() == b.to_multiset(),
        declassifications_match(a, out),
    ensures
        declassifications_match(b, out),
{
    lemma_perm_contains(a, b);
    assert forall|i: int| 0 <= i < out.len() implies grant_declared_by_some(b, #[trigger] out[i]) by {
        let k = choose|k: int| 0 <= k < a.len() && #[trigger] grant_entry_matches(a[k], out[i]);
        assert(a.contains(a[k]));
        let m = choose|m: int| 0 <= m < b.len() && b[m] == a[k];
        assert(grant_entry_matches(b[m], out[i]));
    }
    assert forall|k: int| 0 <= k < b.len() implies grant_declares_some(out, #[trigger] b[k]) by {
        assert(b.contains(b[k]));
        let m = choose|m: int| 0 <= m < a.len() && a[m] == b[k];
        assert(grant_declares_some(out, a[m]));
    }
}

proof fn lemma_questions_match_perm(a: Seq<JsonValue>, b: Seq<JsonValue>, out: Seq<super::wire::OpenQuestionView>)
    requires
        a.to_multiset() == b.to_multiset(),
        questions_match(a, out),
    ensures
        questions_match(b, out),
{
    lemma_perm_contains(a, b);
    assert forall|i: int| 0 <= i < out.len() implies question_declared_by_some(b, #[trigger] out[i]) by {
        let k = choose|k: int| 0 <= k < a.len() && #[trigger] question_entry_matches(a[k], out[i]);
        assert(a.contains(a[k]));
        let m = choose|m: int| 0 <= m < b.len() && b[m] == a[k];
        assert(question_entry_matches(b[m], out[i]));
    }
    assert forall|k: int| 0 <= k < b.len() implies question_declares_some(out, #[trigger] b[k]) by {
        assert(b.contains(b[k]));
        let m = choose|m: int| 0 <= m < a.len() && a[m] == b[k];
        assert(question_declares_some(out, a[m]));
    }
}

proof fn lemma_reordered_symmetric(v1: JsonValue, v2: JsonValue)
    requires
        reordered_document(v1, v2),
    ensures
        reordered_document(v2, v1),
{
    assert forall|k: Seq<char>| is_list_key(k) && #[trigger] list_member(v2, k) is Some
        implies list_member(v2, k).unwrap().to_multiset() == list_member(v1, k).unwrap().to_multiset() by {
        assert(list_member(v1, k) is Some);
    }
}

proof fn lemma_lists_of(v1: JsonValue, v2: JsonValue, k: Seq<char>)
    requires
        reordered_document(v1, v2),
        is_list_key(k),
        list_member(v1, k) is Some,
    ensures
        list_member(v2, k) is Some,
        list_member(v1, k).unwrap().to_multiset() == list_member(v2, k).unwrap().to_multiset(),
{
}

#[verifier::rlimit(40)]
proof fn lemma_accept_one_way(v1: JsonValue, v2: JsonValue)
    requires
        reordered_document(v1, v2),
        attachment_outcome(v1) is Accept,
    ensures
        attachment_outcome(v2) is Accept,
{
    lemma_names_within(v1, v2, super::wire::top_level_keys());
    assert(member(v1, "schemaVersion"@) == member(v2, "schemaVersion"@));
    assert(member(v1, "identity"@) == member(v2, "identity"@));
    assert(member(v1, "attachmentRevision"@) == member(v2, "attachmentRevision"@));
    assert(member(v1, "projectId"@) == member(v2, "projectId"@));
    assert(member(v1, "modelRef"@) == member(v2, "modelRef"@));
    assert(member(v1, "irRef"@) == member(v2, "irRef"@));
    assert(member(v1, "defaults"@) == member(v2, "defaults"@));
    let c1 = list_member(v1, "classifications"@);
    let d1 = list_member(v1, "declassifications"@);
    let q1 = list_member(v1, "openQuestions"@);
    lemma_lists_of(v1, v2, "classifications"@);
    lemma_classifications_accept(c1.unwrap(), list_member(v2, "classifications"@).unwrap());
    lemma_lists_of(v1, v2, "declassifications"@);
    lemma_grants_accept(d1.unwrap(), list_member(v2, "declassifications"@).unwrap());
    lemma_lists_of(v1, v2, "openQuestions"@);
    lemma_questions_accept(q1.unwrap(), list_member(v2, "openQuestions"@).unwrap());
}

proof fn lemma_matches_one_way(v1: JsonValue, v2: JsonValue, a: AttachmentView)
    requires
        reordered_document(v1, v2),
        attachment_outcome(v1) is Accept,
        attachment_matches(v1, a),
    ensures
        attachment_matches(v2, a),
{
    assert(member(v1, "attachmentRevision"@) == member(v2, "attachmentRevision"@));
    assert(member(v1, "projectId"@) == member(v2, "projectId"@));
    assert(member(v1, "modelRef"@) == member(v2, "modelRef"@));
    assert(member(v1, "irRef"@) == member(v2, "irRef"@));
    assert(member(v1, "defaults"@) == member(v2, "defaults"@));
    lemma_lists_of(v1, v2, "classifications"@);
    lemma_lists_of(v1, v2, "declassifications"@);
    lemma_lists_of(v1, v2, "openQuestions"@);
    lemma_classifications_match_perm(list_member(v1, "classifications"@).unwrap(),
        list_member(v2, "classifications"@).unwrap(), a.classifications);
    lemma_grants_match_perm(list_member(v1, "declassifications"@).unwrap(),
        list_member(v2, "declassifications"@).unwrap(), a.declassifications);
    lemma_questions_match_perm(list_member(v1, "openQuestions"@).unwrap(),
        list_member(v2, "openQuestions"@).unwrap(), a.open_questions);
}

/// Reordering a document's top-level members, or the entries of its
/// classification, grant, and question lists, neither changes whether
/// it is accepted nor which attachments it declares.
pub proof fn lemma_reordered_document_same_attachments(v1: JsonValue, v2: JsonValue)
    requires
        reordered_document(v1, v2),
    ensures
        attachment_outcome(v1) is Accept <==> attachment_outcome(v2) is Accept,
        attachment_outcome(v1) is Accept ==> forall|a: AttachmentView|
            #[trigger] attachment_matches(v1, a) <==> attachment_matches(v2, a),
{
    lemma_reordered_symmetric(v1, v2);
    if attachment_outcome(v1) is Accept {
        lemma_accept_one_way(v1, v2);
    }
    if attachment_outcome(v2) is Accept {
        lemma_accept_one_way(v2, v1);
    }
    if attachment_outcome(v1) is Accept {
        assert forall|a: AttachmentView| #[trigger] attachment_matches(v1, a) <==> attachment_matches(v2, a) by {
            if attachment_matches(v1, a) {
                lemma_matches_one_way(v1, v2, a);
            }
            if attachment_matches(v2, a) {
                lemma_matches_one_way(v2, v1, a);
            }
        }
    }
}

} // verus!
