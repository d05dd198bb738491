//! The eviction decision of the cache store: over the entry or byte
//! limit, entries leave in a fixed retention order (opaque-reference
//! kinds first, sources last), larger payloads first, smaller key
//! digests first, and the walk stops at the first ranked prefix whose
//! removal brings the store within both limits.

use vstd::prelude::*;
use crate::diagnostics::normalize::{Atom, KeyPart, Keyed, atoms_le, atoms_lt, keyed_by, part_atoms, sort_keyed, sorted_by, items_of};
use super::key::RecordKind;

verus! {

/// One stored entry as eviction sees it.
#[derive(Debug, PartialEq, Eq)]
pub struct EntryRow {
    pub kind: RecordKind,
    pub digest: String,
    pub bytes: u64,
}

/// The retention class of a record kind: lower classes leave first.
pub open spec fn retention_rank(k: RecordKind) -> int {
    match k {
        RecordKind::ContextKey => 0,
        RecordKind::ArtifactManifestKey => 1,
        RecordKind::AdapterResult => 2,
        RecordKind::AdapterCapability => 3,
        RecordKind::EffectFragment => 4,
        RecordKind::GraphFragment => 5,
        RecordKind::IrFragment => 6,
        RecordKind::ParsedFragment => 7,
        RecordKind::Source => 8,
    }
}

/// The eviction order of an entry: retention class, then larger payload
/// first, then key digest bytes.
pub open spec fn eviction_key(r: EntryRow) -> Seq<Atom> {
    seq![Atom::Num(retention_rank(r.kind)), Atom::Num(u64::MAX - r.bytes), Atom::Txt(r.digest@)]
}

/// Entries in non-decreasing eviction order.
pub open spec fn in_eviction_order(s: Seq<EntryRow>) -> bool {
    sorted_by(s, |e: EntryRow| eviction_key(e))
}

/// The payload sizes of entries, in order.
pub open spec fn sizes(rows: Seq<EntryRow>) -> Seq<u64> {
    rows.map_values(|r: EntryRow| r.bytes)
}

/// The sum of sizes.
pub open spec fn sum(bs: Seq<u64>) -> int
    decreases bs.len(),
{
    if bs.len() == 0 { 0 } else { sum(bs.drop_last()) + bs.last() }
}

/// Removing the first `c` ranked entries brings the store within both
/// limits.
pub open spec fn within_after(bs: Seq<u64>, c: int, max_entries: int, max_bytes: int) -> bool {
    c + max_entries >= bs.len() && sum(bs.take(c)) + max_bytes >= sum(bs)
}

/// The first prefix length from `c` on whose removal suffices, or every
/// entry when none does.
pub open spec fn first_sufficient(bs: Seq<u64>, c: int, max_entries: int, max_bytes: int) -> int
    decreases bs.len() - c,
{
    if c >= bs.len() {
        bs.len() as int
    } else if within_after(bs, c, max_entries, max_bytes) {
        c
    } else {
        first_sufficient(bs, c + 1, max_entries, max_bytes)
    }
}

/// How many ranked entries leave: none when the store is within both
/// limits, else the shortest non-empty prefix whose removal suffices.
pub open spec fn eviction_cut(bs: Seq<u64>, max_entries: int, max_bytes: int) -> int {
    if bs.len() <= max_entries && sum(bs) <= max_bytes {
        0
    } else {
        first_sufficient(bs, 1, max_entries, max_bytes)
    }
}

proof fn lemma_first_sufficient_bound(bs: Seq<u64>, c: int, max_entries: int, max_bytes: int)
    requires
        c >= 0,
    ensures
        0 <= first_sufficient(bs, c, max_entries, max_bytes) <= bs.len(),
    decreases bs.len() - c,
{
    if c < bs.len() {
        lemma_first_sufficient_bound(bs, c + 1, max_entries, max_bytes);
    }
}

proof fn lemma_sum_take(bs: Seq<u64>, c: int)
    requires
        0 <= c < bs.len(),
    ensures
        sum(bs.take(c + 1)) == sum(bs.take(c)) + bs[c],
        sum(bs.take(c)) <= sum(bs),
{
    assert(bs.take(c + 1).drop_last() =~= bs.take(c));
    lemma_sum_prefix(bs, c);
}

proof fn lemma_sum_prefix(bs: Seq<u64>, c: int)
    requires
        0 <= c <= bs.len(),
    ensures
        sum(bs.take(c)) <= sum(bs),
    decreases bs.len() - c,
{
    if c < bs.len() {
        lemma_sum_prefix(bs, c + 1);
        assert(bs.take(c + 1).drop_last() =~= bs.take(c));
    } else {
        assert(bs.take(c) =~= bs);
    }
}

fn row_key(r: &EntryRow) -> (k: Vec<KeyPart>)
    ensures
        part_atoms(k@) == eviction_key(*r),
{
    let rank: u64 = match r.kind {
        RecordKind::ContextKey => 0,
        RecordKind::ArtifactManifestKey => 1,
        RecordKind::AdapterResult => 2,
        RecordKind::AdapterCapability => 3,
        RecordKind::EffectFragment => 4,
        RecordKind::GraphFragment => 5,
        RecordKind::IrFragment => 6,
        RecordKind::ParsedFragment => 7,
        RecordKind::Source => 8,
    };
    let mut k: Vec<KeyPart> = Vec::new();
    k.push(KeyPart::Num(rank));
    k.push(KeyPart::Num(u64::MAX - r.bytes));
    k.push(KeyPart::Txt(r.digest.as_str().to_owned()));
    assert(part_atoms(k@) =~= eviction_key(*r));
    k
}

/// The victims `r` of `rows` under the two limits: some ranking of the
/// stored entries in eviction order whose first [`eviction_cut`] entries
/// are exactly `r`.
pub open spec fn eviction_outcome(rows: Seq<EntryRow>, max_entries: int, max_bytes: int, r: Seq<EntryRow>) -> bool {
    exists|ranked: Seq<EntryRow>| {
        &&& #[trigger] in_eviction_order(ranked)
        &&& ranked.to_multiset() == rows.to_multiset()
        &&& r == ranked.take(eviction_cut(sizes(ranked), max_entries, max_bytes))
    }
}

/// The entries to evict, in eviction order: the stored entries are
/// ranked by [`eviction_key`], and the first [`eviction_cut`] of them
/// leave.
pub fn eviction_victims(rows: Vec<EntryRow>, max_entries: u64, max_total_bytes: u64) -> (r: Vec<EntryRow>)
    requires
        sum(sizes(rows@)) <= u64::MAX,
    ensures
        eviction_outcome(rows@, max_entries as int, max_total_bytes as int, r@),
{
    broadcast use vstd::seq_lib::group_to_multiset_ensures;
    let ghost orig = rows@;
    let ghost f = |e: EntryRow| eviction_key(e);
    let mut rest = rows;
    let mut keyed: Vec<Keyed<EntryRow>> = Vec::new();
    while rest.len() > 0
        invariant
            items_of(keyed@) + rest@ == orig,
            keyed_by(keyed@, f),
            f == |e: EntryRow| eviction_key(e),
        decreases rest@.len(),
    {
        let ghost before = rest@;
        let x = rest.remove(0);
        let key = row_key(&x);
        keyed.push(Keyed { key, item: x });
        assert(items_of(keyed@) + rest@ =~= orig) by {
            assert(items_of(keyed@) =~= items_of(keyed@.drop_last()).push(x));
            assert(before =~= seq![x] + rest@);
        }
    }
    assert(items_of(keyed@) =~= orig);
    let ranked = sort_keyed(keyed, Ghost(f));
    let ghost rv = ranked@;
    let ghost bs = sizes(rv);
    proof {
        crate::diagnostics::normalize::lemma_map_permutation(rv, orig, |e: EntryRow| e.bytes);
        lemma_sum_permutation(bs, sizes(orig));
    }
    let n = ranked.len();
    // The current totals.
    let mut total: u64 = 0;
    let mut i: usize = 0;
    assert(bs.take(0) =~= Seq::<u64>::empty());
    while i < n
        invariant
            n == rv.len(),
            ranked@ == rv,
            bs == sizes(rv),
            sum(bs) <= u64::MAX,
            i <= n,
            total == sum(bs.take(i as int)),
        decreases n - i,
    {
        proof {
            lemma_sum_take(bs, i as int);
            lemma_sum_prefix(bs, i + 1);
            assert(bs[i as int] == ranked@[i as int].bytes);
        }
        total = total + ranked[i].bytes;
        i = i + 1;
    }
    assert(bs.take(n as int) =~= bs);
    let mut cut: usize = 0;
    if (n as u64) > max_entries || total > max_total_bytes {
        // Walk the ranked entries to the first prefix that suffices.
        let mut evicted: u64 = 0;
        let mut c: usize = 0;
        loop
            invariant_except_break
                first_sufficient(bs, 1, max_entries as int, max_total_bytes as int)
                    == first_sufficient(bs, c as int + 1, max_entries as int, max_total_bytes as int),
            invariant
                n == rv.len(),
                ranked@ == rv,
                bs == sizes(rv),
                sum(bs) <= u64::MAX,
                total == sum(bs),
                c <= n,
                evicted == sum(bs.take(c as int)),
            ensures
                cut == first_sufficient(bs, 1, max_entries as int, max_total_bytes as int),
            decreases n - c,
        {
            if c >= n {
                cut = n;
                break;
            }
            proof {
                lemma_sum_take(bs, c as int);
                lemma_sum_prefix(bs, c + 1);
                assert(bs[c as int] == ranked@[c as int].bytes);
            }
            evicted = evicted + ranked[c].bytes;
            c = c + 1;
            if (c as u128) + (max_entries as u128) >= n as u128
                && (evicted as u128) + (max_total_bytes as u128) >= total as u128 {
                cut = c;
                break;
            }
        }
    }
    proof {
        lemma_first_sufficient_bound(bs, 1, max_entries as int, max_total_bytes as int);
        if !((n as u64) > max_entries || total > max_total_bytes) {
            assert(eviction_cut(bs, max_entries as int, max_total_bytes as int) == 0);
        }
    }
    let mut victims: Vec<EntryRow> = Vec::new();
    let mut src = ranked;
    let mut k: usize = 0;
    assert(rv.skip(0) =~= rv);
    while k < cut
        invariant
            cut <= n,
            n == rv.len(),
            k <= cut,
            k + src@.len() == n,
            src@ =~= rv.skip(k as int),
            victims@ =~= rv.take(k as int),
        decreases cut - k,
    {
        let x = src.remove(0);
        victims.push(x);
        assert(victims@ =~= rv.take(k + 1));
        k = k + 1;
    }
    assert(in_eviction_order(rv));
    victims
}

proof fn lemma_sum_permutation(a: Seq<u64>, b: Seq<u64>)
    requires
        a.to_multiset() == b.to_multiset(),
    ensures
        sum(a) == sum(b),
    decreases a.len(),
{
    broadcast use vstd::seq_lib::group_to_multiset_ensures;
    if a.len() == 0 {
        assert(b.len() == b.to_multiset().len());
        assert(b.len() == 0);
    } else {
        let x = a.last();
        let a1 = a.drop_last();
        assert(a =~= a1.push(x));
        assert(b.to_multiset().count(x) > 0);
        assert(b.contains(x));
        let i = choose|i: int| 0 <= i < b.len() && b[i] == x;
        let b1 = b.remove(i);
        assert(a1.to_multiset() =~= b1.to_multiset()) by {
            assert(a.to_multiset() =~= a1.to_multiset().insert(x));
            assert(b1.to_multiset() =~= b.to_multiset().remove(x));
        }
        lemma_sum_permutation(a1, b1);
        lemma_sum_remove(b, i);
    }
}

proof fn lemma_sum_remove(b: Seq<u64>, i: int)
    requires
        0 <= i < b.len(),
    ensures
        sum(b) == sum(b.remove(i)) + b[i],
    decreases b.len(),
{
    if i == b.len() - 1 {
        assert(b.remove(i) =~= b.drop_last());
    } else {
        lemma_sum_remove(b.drop_last(), i);
        assert(b.remove(i).drop_last() =~= b.drop_last().remove(i));
        assert(b.remove(i).last() == b.last());
    }
}

/// The frozen retention table, first to leave first: context keys,
/// artifact-manifest keys, adapter results, adapter capabilities, effect
/// fragments, graph fragments, IR fragments, parsed fragments, sources.
pub open spec fn retention_table() -> Seq<RecordKind> {
    seq![
        RecordKind::ContextKey,
        RecordKind::ArtifactManifestKey,
        RecordKind::AdapterResult,
        RecordKind::AdapterCapability,
        RecordKind::EffectFragment,
        RecordKind::GraphFragment,
        RecordKind::IrFragment,
        RecordKind::ParsedFragment,
        RecordKind::Source,
    ]
}

/// An entry of a lower retention class is always evicted before any
/// entry of a higher class: whenever an entry of the class at position
/// `b` of the retention table leaves, every stored entry of the class at
/// an earlier position `a` leaves too.
pub proof fn lemma_lower_class_leaves_first(
    rows: Seq<EntryRow>,
    max_entries: int,
    max_bytes: int,
    r: Seq<EntryRow>,
    x: EntryRow,
    y: EntryRow,
    a: int,
    b: int,
)
    requires
        eviction_outcome(rows, max_entries, max_bytes, r),
        rows.contains(x),
        r.contains(y),
        0 <= a < b < retention_table().len(),
        x.kind == retention_table()[a],
        y.kind == retention_table()[b],
    ensures
        r.contains(x),
{
    broadcast use vstd::seq_lib::group_to_multiset_ensures;
    let ranked = choose|ranked: Seq<EntryRow>| {
        &&& #[trigger] in_eviction_order(ranked)
        &&& ranked.to_multiset() == rows.to_multiset()
        &&& r == ranked.take(eviction_cut(sizes(ranked), max_entries, max_bytes))
    };
    let c = eviction_cut(sizes(ranked), max_entries, max_bytes);
    assert(retention_rank(x.kind) == a && retention_rank(y.kind) == b) by {
        assert(retention_table()[0] == RecordKind::ContextKey);
        assert(retention_table()[1] == RecordKind::ArtifactManifestKey);
        assert(retention_table()[2] == RecordKind::AdapterResult);
        assert(retention_table()[3] == RecordKind::AdapterCapability);
        assert(retention_table()[4] == RecordKind::EffectFragment);
        assert(retention_table()[5] == RecordKind::GraphFragment);
        assert(retention_table()[6] == RecordKind::IrFragment);
        assert(retention_table()[7] == RecordKind::ParsedFragment);
        assert(retention_table()[8] == RecordKind::Source);
    }
    lemma_first_sufficient_bound(sizes(ranked), 1, max_entries, max_bytes);
    assert(sizes(ranked).len() == ranked.len());
    assert(0 <= c <= ranked.len());
    assert(r.len() == c);
    let jy = choose|j: int| 0 <= j < r.len() && r[j] == y;
    assert(r[jy] == ranked[jy]);
    assert(ranked[jy] == y);
    assert(rows.to_multiset().count(x) > 0);
    assert(ranked.contains(x));
    let jx = choose|j: int| 0 <= j < ranked.len() && ranked[j] == x;
    if jx >= r.len() {
        assert(jy < jx);
        let kx = eviction_key(x);
        let ky = eviction_key(y);
        assert(atoms_le((|e: EntryRow| eviction_key(e))(ranked[jy]), (|e: EntryRow| eviction_key(e))(ranked[jx])));
        assert(kx[0] == Atom::Num(a) && ky[0] == Atom::Num(b));
        assert(atoms_lt(kx, ky));
        assert(false);
    }
    assert(r[jx] == ranked[jx]);
    assert(r[jx] == x);
}

proof fn lemma_first_sufficient_within(bs: Seq<u64>, c: int, max_entries: int, max_bytes: int)
    requires
        c >= 0,
        max_entries >= 0,
        max_bytes >= 0,
    ensures
        within_after(bs, first_sufficient(bs, c, max_entries, max_bytes), max_entries, max_bytes),
    decreases bs.len() - c,
{
    if c >= bs.len() {
        assert(bs.take(bs.len() as int) =~= bs);
    } else if !within_after(bs, c, max_entries, max_bytes) {
        lemma_first_sufficient_within(bs, c + 1, max_entries, max_bytes);
    }
}

/// Eviction never runs on a store within both limits, and what is left
/// after the victims leave is within both the entry limit and the byte
/// limit.
pub proof fn lemma_eviction_restores_limits(rows: Seq<EntryRow>, max_entries: int, max_bytes: int, r: Seq<EntryRow>)
    requires
        eviction_outcome(rows, max_entries, max_bytes, r),
        max_entries >= 0,
        max_bytes >= 0,
    ensures
        rows.len() <= max_entries && sum(sizes(rows)) <= max_bytes ==> r.len() == 0,
        rows.len() - r.len() <= max_entries,
        sum(sizes(rows)) - sum(sizes(r)) <= max_bytes,
{
    broadcast use vstd::seq_lib::group_to_multiset_ensures;
    let ranked = choose|ranked: Seq<EntryRow>| {
        &&& #[trigger] in_eviction_order(ranked)
        &&& ranked.to_multiset() == rows.to_multiset()
        &&& r == ranked.take(eviction_cut(sizes(ranked), max_entries, max_bytes))
    };
    let bs = sizes(ranked);
    let c = eviction_cut(bs, max_entries, max_bytes);
    crate::diagnostics::normalize::lemma_map_permutation(ranked, rows, |e: EntryRow| e.bytes);
    lemma_sum_permutation(bs, sizes(rows));
    assert(ranked.len() == ranked.to_multiset().len());
    assert(rows.len() == rows.to_multiset().len());
    lemma_first_sufficient_bound(bs, 1, max_entries, max_bytes);
    assert(0 <= c <= ranked.len());
    assert(sizes(r) =~= bs.take(c));
    if bs.len() <= max_entries && sum(bs) <= max_bytes {
        assert(c == 0);
        assert(bs.take(0) =~= Seq::<u64>::empty());
    } else {
        lemma_first_sufficient_within(bs, 1, max_entries, max_bytes);
    }
}

/// Within one retention class, a larger payload always leaves before a
/// smaller one.
pub proof fn lemma_larger_payload_leaves_first(
    rows: Seq<EntryRow>,
    max_entries: int,
    max_bytes: int,
    r: Seq<EntryRow>,
    x: EntryRow,
    y: EntryRow,
)
    requires
        eviction_outcome(rows, max_entries, max_bytes, r),
        rows.contains(x),
        r.contains(y),
        x.kind == y.kind,
        x.bytes > y.bytes,
    ensures
        r.contains(x),
{
    broadcast use vstd::seq_lib::group_to_multiset_ensures;
    let ranked = choose|ranked: Seq<EntryRow>| {
        &&& #[trigger] in_eviction_order(ranked)
        &&& ranked.to_multiset() == rows.to_multiset()
        &&& r == ranked.take(eviction_cut(sizes(ranked), max_entries, max_bytes))
    };
    let c = eviction_cut(sizes(ranked), max_entries, max_bytes);
    lemma_first_sufficient_bound(sizes(ranked), 1, max_entries, max_bytes);
    assert(sizes(ranked).len() == ranked.len());
    assert(r.len() == c);
    let jy = choose|j: int| 0 <= j < r.len() && r[j] == y;
    assert(r[jy] == ranked[jy]);
    assert(rows.to_multiset().count(x) > 0);
    assert(ranked.contains(x));
    let jx = choose|j: int| 0 <= j < ranked.len() && ranked[j] == x;
    if jx >= r.len() {
        let kx = eviction_key(x);
        let ky = eviction_key(y);
        assert(atoms_le((|e: EntryRow| eviction_key(e))(ranked[jy]), (|e: EntryRow| eviction_key(e))(ranked[jx])));
        assert(kx[0] == ky[0]);
        assert(kx.drop_first()[0] == Atom::Num(u64::MAX - x.bytes));
        assert(ky.drop_first()[0] == Atom::Num(u64::MAX - y.bytes));
        assert(atoms_lt(kx.drop_first(), ky.drop_first()));
        assert(atoms_lt(kx, ky));
        assert(false);
    }
    assert(r[jx] == ranked[jx]);
}

} // verus!
