//! Total, deterministic subject resolution over one attachment. The
//! resolved kind is the most restrictive of the exact entry, the
//! containing definition's entry, and the profile default; no
//! contributor is the distinct `Unclassified` state. Lowering happens
//! only through an explicit grant.

use vstd::prelude::*;
use super::types::{DataKind, Profile, SubjectPath, subject_fields, subject_head};
use super::wire::{Attachment, ClassificationView, Declassification, DeclassificationView, Defaults,
    classification_views, grant_views};
use crate::text::{contains_char, str_eq};

verus! {

/// The resolved classification of one subject.
#[derive(Clone, Copy, Debug, PartialEq, Eq, Structural)]
pub enum ResolvedKind {
    /// The subject resolved to a closed kind.
    Classified(DataKind),
    /// No entry and no covering default: unknown, never safe.
    Unclassified,
}

impl ResolvedKind {
    /// The resolved kind, if classified.
    pub fn kind(self) -> (r: Option<DataKind>)
        ensures
            r == match self {
                ResolvedKind::Classified(k) => Some(k),
                ResolvedKind::Unclassified => None,
            },
    {
        match self {
            ResolvedKind::Classified(kind) => Some(kind),
            ResolvedKind::Unclassified => None,
        }
    }

    /// Whether the resolution is sensitive; unclassified is.
    pub fn is_sensitive(self) -> (r: bool)
        ensures
            r == match self {
                ResolvedKind::Classified(k) => k.spec_is_sensitive(),
                ResolvedKind::Unclassified => true,
            },
    {
        match self {
            ResolvedKind::Classified(kind) => kind.is_sensitive(),
            ResolvedKind::Unclassified => true,
        }
    }

    /// The rank for widening: unclassified widens as the top rank.
    pub open spec fn spec_rank(self) -> u8 {
        match self {
            ResolvedKind::Classified(k) => k.spec_rank(),
            ResolvedKind::Unclassified => DataKind::Credential.spec_rank(),
        }
    }

    /// The rank for widening: unclassified widens as the top rank.
    pub fn rank(self) -> (r: u8)
        ensures
            r == self.spec_rank(),
    {
        match self {
            ResolvedKind::Classified(kind) => kind.rank(),
            ResolvedKind::Unclassified => DataKind::Credential.rank(),
        }
    }
}

/// The effective kind of one subject after grants.
#[derive(Clone, Debug, PartialEq, Eq)]
pub struct SensitivityMark {
    /// The subject that carried the grant or classification.
    pub subject: String,
    /// The effective kind after the grant.
    pub kind: DataKind,
}

/// The contract-level content of a resolution.
pub struct ResolutionView {
    pub defaults: (Profile, DataKind, DataKind),
    pub exact: Seq<(Seq<char>, DataKind)>,
    pub definitions: Seq<(Seq<char>, DataKind)>,
    pub grants: Seq<DeclassificationView>,
}

/// The total subject resolution over one attachment.
#[derive(Debug)]
pub struct Resolution {
    defaults: Defaults,
    exact: Vec<(String, DataKind)>,
    definition_defaults: Vec<(String, DataKind)>,
    grants: Vec<Declassification>,
}

/// The views of keyed kind entries.
pub open spec fn entry_views(s: Seq<(String, DataKind)>) -> Seq<(Seq<char>, DataKind)> {
    s.map_values(|e: (String, DataKind)| (e.0@, e.1))
}

impl View for Resolution {
    type V = ResolutionView;

    closed spec fn view(&self) -> ResolutionView {
        ResolutionView {
            defaults: self.defaults@,
            exact: entry_views(self.exact@),
            definitions: entry_views(self.definition_defaults@),
            grants: grant_views(self.grants@),
        }
    }
}

/// The entries of a given level (field level when `fields`), in order.
pub open spec fn level_entries(cs: Seq<ClassificationView>, fields: bool) -> Seq<(Seq<char>, DataKind)>
    decreases cs.len(),
{
    if cs.len() == 0 {
        Seq::empty()
    } else {
        let rest = level_entries(cs.drop_last(), fields);
        if contains_char(cs.last().subject, '/') == fields {
            rest.push((cs.last().subject, cs.last().kind))
        } else {
            rest
        }
    }
}

/// The kind of the first entry keyed `key`.
pub open spec fn kind_lookup(entries: Seq<(Seq<char>, DataKind)>, key: Seq<char>) -> Option<DataKind>
    decreases entries.len(),
{
    if entries.len() == 0 {
        None
    } else if entries[0].0 == key {
        Some(entries[0].1)
    } else {
        kind_lookup(entries.drop_first(), key)
    }
}

/// The more restrictive of two optional contributors; an earlier one
/// wins a tie.
pub open spec fn widest(a: Option<DataKind>, b: Option<DataKind>) -> Option<DataKind> {
    match (a, b) {
        (None, x) => x,
        (x, None) => x,
        (Some(x), Some(y)) => if y.spec_rank() > x.spec_rank() { Some(y) } else { Some(x) },
    }
}

/// The profile default covering a subject: payload subjects (two field
/// segments) take `unclassifiedPayloads`, field subjects
/// `unclassifiedFields`, definition subjects none.
pub open spec fn profile_default(r: ResolutionView, s: Seq<char>) -> Option<DataKind> {
    if subject_fields(s).len() >= 2 {
        Some(r.defaults.2)
    } else if contains_char(s, '/') {
        Some(r.defaults.1)
    } else {
        None
    }
}

/// The three contributors of a subject.
pub open spec fn contributors(r: ResolutionView, s: Seq<char>) -> (Option<DataKind>, Option<DataKind>, Option<DataKind>) {
    (kind_lookup(r.exact, s), kind_lookup(r.definitions, subject_head(s)), profile_default(r, s))
}

/// The resolution of a subject: the widest contributor.
pub open spec fn resolved(r: ResolutionView, s: Seq<char>) -> ResolvedKind {
    let c = contributors(r, s);
    match widest(widest(c.0, c.1), c.2) {
        Some(k) => ResolvedKind::Classified(k),
        None => ResolvedKind::Unclassified,
    }
}

/// The run of grants starting at the first grant of `s`.
pub open spec fn grant_run(grants: Seq<DeclassificationView>, s: Seq<char>) -> Seq<DeclassificationView> {
    let start = first_grant(grants, s, 0);
    grants.subrange(start, run_end(grants, s, start))
}

/// The first index at or after `from` whose grant has subject `s`.
pub open spec fn first_grant(grants: Seq<DeclassificationView>, s: Seq<char>, from: int) -> int
    decreases grants.len() - from,
{
    if from >= grants.len() || from < 0 {
        grants.len() as int
    } else if grants[from].subject == s {
        from
    } else {
        first_grant(grants, s, from + 1)
    }
}

/// The first index at or after `from` whose grant is not of subject `s`.
pub open spec fn run_end(grants: Seq<DeclassificationView>, s: Seq<char>, from: int) -> int
    decreases grants.len() - from,
{
    if from >= grants.len() || from < 0 {
        grants.len() as int
    } else if grants[from].subject != s {
        from
    } else {
        run_end(grants, s, from + 1)
    }
}

proof fn lemma_first_grant_bounds(grants: Seq<DeclassificationView>, s: Seq<char>, from: int)
    requires
        0 <= from <= grants.len(),
    ensures
        from <= first_grant(grants, s, from) <= grants.len(),
    decreases grants.len() - from,
{
    if from < grants.len() && grants[from].subject != s {
        lemma_first_grant_bounds(grants, s, from + 1);
    }
}

proof fn lemma_run_end_bounds(grants: Seq<DeclassificationView>, s: Seq<char>, from: int)
    requires
        0 <= from <= grants.len(),
    ensures
        from <= run_end(grants, s, from) <= grants.len(),
    decreases grants.len() - from,
{
    if from < grants.len() && grants[from].subject == s {
        lemma_run_end_bounds(grants, s, from + 1);
    }
}

/// Applying grants in order: a grant the caller accepts whose
/// `fromKind` is the current kind and whose `toKind` is a strict
/// lowering of it moves the kind to `toKind`; `credential` never moves.
pub open spec fn apply_grants(kind: DataKind, grants: Seq<DeclassificationView>, accepted: Seq<bool>) -> DataKind
    decreases grants.len(),
{
    if grants.len() == 0 {
        kind
    } else {
        let g = grants.last();
        let before = apply_grants(kind, grants.drop_last(), accepted);
        if accepted[grants.len() - 1] && !(before is Credential) && g.from_kind == before
            && g.to_kind.spec_strict_lowering_of(before) {
            g.to_kind
        } else {
            before
        }
    }
}

fn kind_of_key(entries: &Vec<(String, DataKind)>, key: &str) -> (r: Option<DataKind>)
    ensures
        r == kind_lookup(entry_views(entries@), key@),
{
    let ghost view = entry_views(entries@);
    let mut i: usize = 0;
    assert(view.subrange(0, view.len() as int) =~= view);
    while i < entries.len()
        invariant
            i <= entries@.len(),
            view == entry_views(entries@),
            view.len() == entries@.len(),
            kind_lookup(view, key@) == kind_lookup(view.subrange(i as int, view.len() as int), key@),
        decreases entries@.len() - i,
    {
        assert(view.subrange(i as int, view.len() as int).drop_first() =~= view.subrange(i + 1, view.len() as int));
        assert(view[i as int] == (entries@[i as int].0@, entries@[i as int].1));
        if str_eq(entries[i].0.as_str(), key) {
            return Some(entries[i].1);
        }
        i = i + 1;
    }
    None
}

impl Resolution {
    /// Build the resolution over one parsed attachment: a pure function
    /// of the attachment.
    pub fn build(attachment: &Attachment) -> (r: Resolution)
        ensures
            r@.defaults == attachment@.defaults,
            r@.exact == level_entries(attachment@.classifications, true),
            r@.definitions == level_entries(attachment@.classifications, false),
            r@.grants == attachment@.declassifications,
    {
        let classifications = attachment.classifications();
        let mut exact: Vec<(String, DataKind)> = Vec::new();
        let mut definition_defaults: Vec<(String, DataKind)> = Vec::new();
        let mut i: usize = 0;
        while i < classifications.len()
            invariant
                i <= classifications@.len(),
                classification_views(classifications@) == attachment@.classifications,
                entry_views(exact@) == level_entries(classification_views(classifications@.subrange(0, i as int)), true),
                entry_views(definition_defaults@) == level_entries(classification_views(classifications@.subrange(0, i as int)), false),
            decreases classifications@.len() - i,
        {
            let entry = &classifications[i];
            let ghost prefix = classification_views(classifications@.subrange(0, i + 1));
            proof {
                assert(prefix.drop_last() =~= classification_views(classifications@.subrange(0, i as int)));
                assert(prefix.last() == entry@);
            }
            if entry.subject().is_definition_level() {
                let ghost before = definition_defaults@;
                definition_defaults.push((entry.subject().as_str().to_owned(), entry.kind()));
                assert(entry_views(definition_defaults@) =~= entry_views(before).push((entry@.subject, entry@.kind)));
            } else {
                let ghost before = exact@;
                exact.push((entry.subject().as_str().to_owned(), entry.kind()));
                assert(entry_views(exact@) =~= entry_views(before).push((entry@.subject, entry@.kind)));
            }
            i = i + 1;
        }
        assert(classifications@.subrange(0, classifications@.len() as int) =~= classifications@);
        let declassifications = attachment.declassifications();
        let mut grants: Vec<Declassification> = Vec::new();
        let mut j: usize = 0;
        while j < declassifications.len()
            invariant
                j <= declassifications@.len(),
                grant_views(declassifications@) == attachment@.declassifications,
                grant_views(grants@) == grant_views(declassifications@.subrange(0, j as int)),
            decreases declassifications@.len() - j,
        {
            let ghost before = grants@;
            let copy = declassifications[j].clone();
            assert(copy@ == declassifications@[j as int]@);
            grants.push(copy);
            assert(grant_views(grants@) =~= grant_views(before).push(copy@));
            assert(grant_views(declassifications@.subrange(0, j + 1)) =~= grant_views(declassifications@.subrange(0, j as int)).push(declassifications@[j as int]@));
            j = j + 1;
        }
        assert(declassifications@.subrange(0, declassifications@.len() as int) =~= declassifications@);
        Resolution { defaults: *attachment.defaults(), exact, definition_defaults, grants }
    }

    /// The declared profile.
    pub fn profile(&self) -> (r: Profile)
        ensures
            r == self@.defaults.0,
    {
        self.defaults.profile()
    }

    /// The exact entry for one subject, when declared at its own path.
    pub fn exact(&self, subject: &SubjectPath) -> (r: Option<DataKind>)
        ensures
            r == kind_lookup(self@.exact, subject@),
    {
        kind_of_key(&self.exact, subject.as_str())
    }

    /// The definition-level entry covering one subject: the entry of its
    /// head semantic id, when declared.
    pub fn definition_default(&self, subject: &SubjectPath) -> (r: Option<DataKind>)
        ensures
            r == kind_lookup(self@.definitions, subject_head(subject@)),
    {
        kind_of_key(&self.definition_defaults, subject.semantic_id())
    }

    /// The grants of one subject, in canonical order.
    pub closed spec fn grant_objects(&self, s: Seq<char>) -> Seq<Declassification> {
        let gv = grant_views(self.grants@);
        let start = first_grant(gv, s, 0);
        self.grants@.subrange(start, run_end(gv, s, start))
    }

    /// The grants of one subject: the run of grants that starts at its
    /// first grant (in a parsed attachment, exactly its grants, ordered
    /// by grant id).
    pub fn grants(&self, subject: &SubjectPath) -> (r: &[Declassification])
        ensures
            grant_views(r@) == grant_run(self@.grants, subject@),
            r@ == self.grant_objects(subject@),
    {
        let ghost gv = grant_views(self.grants@);
        let n = self.grants.len();
        let mut start: usize = 0;
        while start < n && !str_eq(self.grants[start].subject().as_str(), subject.as_str())
            invariant
                n == self.grants@.len(),
                start <= n,
                gv == grant_views(self.grants@),
                first_grant(gv, subject@, 0) == first_grant(gv, subject@, start as int),
            decreases n - start,
        {
            assert(gv[start as int] == self.grants@[start as int]@);
            start = start + 1;
        }
        let mut end: usize = start;
        proof {
            if start < n {
                assert(gv[start as int] == self.grants@[start as int]@);
            }
            assert(run_end(gv, subject@, start as int) == run_end(gv, subject@, end as int));
        }
        while end < n && str_eq(self.grants[end].subject().as_str(), subject.as_str())
            invariant
                n == self.grants@.len(),
                start <= end <= n,
                gv == grant_views(self.grants@),
                run_end(gv, subject@, start as int) == run_end(gv, subject@, end as int),
            decreases n - end,
        {
            assert(gv[end as int] == self.grants@[end as int]@);
            end = end + 1;
        }
        proof {
            if end < n {
                assert(gv[end as int] == self.grants@[end as int]@);
            }
        }
        let r = vstd::slice::slice_subrange(self.grants.as_slice(), start, end);
        assert(grant_views(r@) =~= grant_run(gv, subject@));
        assert(r@ =~= self.grant_objects(subject@));
        r
    }

    /// Resolve one subject: the most restrictive of the exact entry, the
    /// entry of the containing definition, and the profile default
    /// (payload subjects `unclassifiedPayloads`, field subjects
    /// `unclassifiedFields`); `Unclassified` when none exists.
    pub fn resolve(&self, subject: &SubjectPath) -> (r: ResolvedKind)
        ensures
            r == resolved(self@, subject@),
    {
        let exact = self.exact(subject);
        let definition = kind_of_key(&self.definition_defaults, subject.semantic_id());
        let fields = subject.field_segments();
        proof {
            assert(fields@.len() == subject_fields(subject@).len());
        }
        let default = if fields.len() >= 2 {
            Some(self.defaults.unclassified_payloads())
        } else if !subject.is_definition_level() {
            Some(self.defaults.unclassified_fields())
        } else {
            None
        };
        let mut best: Option<DataKind> = None;
        let candidates = [exact, definition, default];
        let mut i: usize = 0;
        while i < 3
            invariant
                i <= 3,
                candidates@ == seq![exact, definition, default],
                best == (if i == 0 { None } else if i == 1 { widest(None, exact) } else if i == 2 {
                    widest(widest(None, exact), definition)
                } else {
                    widest(widest(widest(None, exact), definition), default)
                }),
            decreases 3 - i,
        {
            if let Some(candidate) = candidates[i] {
                best = Some(match best {
                    None => candidate,
                    Some(current) => if candidate.rank() > current.rank() {
                        candidate
                    } else {
                        current
                    },
                });
            }
            i = i + 1;
        }
        match best {
            Some(kind) => ResolvedKind::Classified(kind),
            None => ResolvedKind::Unclassified,
        }
    }

    /// Resolve one subject and apply its grants in order: a grant the
    /// caller accepts, whose `fromKind` is the current kind and whose
    /// `toKind` is a strict lowering of it, lowers the kind; the
    /// caller's verdict on each grant is what `grants_valid` returns for
    /// it. `credential` never lowers. An unclassified subject marks as
    /// `credential`.
    pub fn resolve_with_grants<F: Fn(&Declassification) -> bool>(&self, subject: &SubjectPath, grants_valid: F) -> (r: SensitivityMark)
        requires
            forall|g: &Declassification| #[trigger] grants_valid.requires((g,)),
        ensures
            r.subject@ == subject@,
            match resolved(self@, subject@) {
                ResolvedKind::Unclassified => r.kind == DataKind::Credential,
                ResolvedKind::Classified(k) => exists|accepted: Seq<bool>| #![trigger apply_grants(k, grant_run(self@.grants, subject@), accepted)]
                    accepted.len() == grant_run(self@.grants, subject@).len()
                    && (forall|i: int| 0 <= i < accepted.len()
                        ==> grants_valid.ensures((&#[trigger] self.grant_objects(subject@)[i],), accepted[i]))
                    && r.kind == apply_grants(k, grant_run(self@.grants, subject@), accepted),
            },
            resolved(self@, subject@) == ResolvedKind::Classified(DataKind::Credential) ==> r.kind == DataKind::Credential,
    {
        let resolved_kind = self.resolve(subject);
        let start_kind = match resolved_kind {
            ResolvedKind::Classified(kind) => kind,
            ResolvedKind::Unclassified => {
                return SensitivityMark { subject: subject.as_str().to_owned(), kind: DataKind::Credential };
            },
        };
        let grants = self.grants(subject);
        let ghost run = grant_views(grants@);
        let mut kind = start_kind;
        let ghost mut accepted: Seq<bool> = Seq::empty();
        let mut i: usize = 0;
        while i < grants.len()
            invariant
                i <= grants@.len(),
                run == grant_views(grants@),
                grants@ == self.grant_objects(subject@),
                accepted.len() == i,
                forall|j: int| 0 <= j < i ==> grants_valid.ensures((&#[trigger] grants@[j],), accepted[j]),
                forall|g: &Declassification| #[trigger] grants_valid.requires((g,)),
                kind == apply_grants(start_kind, run.subrange(0, i as int), accepted),
            decreases grants@.len() - i,
        {
            let grant = &grants[i];
            let ok = grants_valid(grant);
            let ghost before = kind;
            if ok && kind.declassifiable() && grant.from_kind() == kind && grant.to_kind().strict_lowering_of(kind) {
                kind = grant.to_kind();
            }
            proof {
                let prefix = run.subrange(0, i + 1);
                assert(prefix.drop_last() =~= run.subrange(0, i as int));
                assert(prefix.last() == grant@);
                let acc2 = accepted.push(ok);
                assert forall|k: DataKind, g: Seq<DeclassificationView>| g.len() <= accepted.len() implies
                    apply_grants(k, g, acc2) == apply_grants(k, g, accepted) by {
                    lemma_apply_prefix(k, g, accepted, acc2);
                }
                accepted = acc2;
            }
            i = i + 1;
        }
        proof {
            assert(run.subrange(0, run.len() as int) =~= run);
            lemma_credential_never_lowers(run, accepted);
        }
        SensitivityMark { subject: subject.as_str().to_owned(), kind }
    }
}

/// Only the first `grants.len()` acceptance flags matter.
proof fn lemma_apply_prefix(k: DataKind, g: Seq<DeclassificationView>, a: Seq<bool>, b: Seq<bool>)
    requires
        g.len() <= a.len(),
        g.len() <= b.len(),
        forall|i: int| 0 <= i < g.len() ==> a[i] == b[i],
    ensures
        apply_grants(k, g, a) == apply_grants(k, g, b),
    decreases g.len(),
{
    if g.len() > 0 {
        lemma_apply_prefix(k, g.drop_last(), a, b);
    }
}


/// Resolution widens and never invents: a subject is unclassified
/// exactly when no contributor exists; otherwise its kind is one of the
/// contributors and at least as restrictive as each of them.
pub proof fn lemma_resolution_widens(r: ResolutionView, s: Seq<char>)
    ensures
        ({
            let c = contributors(r, s);
            &&& (resolved(r, s) is Unclassified <==> (c.0 is None && c.1 is None && c.2 is None))
            &&& (resolved(r, s) matches ResolvedKind::Classified(k) ==> {
                &&& (c.0 == Some(k) || c.1 == Some(k) || c.2 == Some(k))
                &&& (c.0 matches Some(x) ==> x.spec_rank() <= k.spec_rank())
                &&& (c.1 matches Some(x) ==> x.spec_rank() <= k.spec_rank())
                &&& (c.2 matches Some(x) ==> x.spec_rank() <= k.spec_rank())
            })
        }),
{
}

/// Grants never raise a kind: the result of applying grants is the
/// starting kind or the target of an accepted grant, and its rank is at
/// most the starting rank.
pub proof fn lemma_grants_never_raise(k: DataKind, grants: Seq<DeclassificationView>, accepted: Seq<bool>)
    requires
        accepted.len() == grants.len(),
    ensures
        apply_grants(k, grants, accepted).spec_rank() <= k.spec_rank(),
        apply_grants(k, grants, accepted) == k || exists|i: int| 0 <= i < grants.len() && accepted[i]
            && #[trigger] grants[i].to_kind == apply_grants(k, grants, accepted),
    decreases grants.len(),
{
    if grants.len() > 0 {
        let rest = grants.drop_last();
        lemma_grants_never_raise(k, rest, accepted.subrange(0, rest.len() as int));
        lemma_apply_prefix(k, rest, accepted, accepted.subrange(0, rest.len() as int));
        let before = apply_grants(k, rest, accepted);
        if before != k {
            let i = choose|i: int| 0 <= i < rest.len() && accepted.subrange(0, rest.len() as int)[i]
                && #[trigger] rest[i].to_kind == before;
            assert(grants[i].to_kind == rest[i].to_kind);
        }
    }
}

/// `credential` never lowers: whatever grants are declared and
/// accepted, applying them to `credential` leaves `credential`.
pub proof fn lemma_credential_never_lowers(grants: Seq<DeclassificationView>, accepted: Seq<bool>)
    ensures
        apply_grants(DataKind::Credential, grants, accepted) == DataKind::Credential,
    decreases grants.len(),
{
    if grants.len() > 0 {
        lemma_credential_never_lowers(grants.drop_last(), accepted);
    }
}

/// With every grant refused, resolution with grants is plain resolution.
pub proof fn lemma_refused_grants_keep_kind(k: DataKind, grants: Seq<DeclassificationView>, accepted: Seq<bool>)
    requires
        accepted.len() == grants.len(),
        forall|i: int| 0 <= i < accepted.len() ==> !accepted[i],
    ensures
        apply_grants(k, grants, accepted) == k,
    decreases grants.len(),
{
    if grants.len() > 0 {
        lemma_refused_grants_keep_kind(k, grants.drop_last(), accepted.subrange(0, grants.len() - 1));
        lemma_apply_prefix(k, grants.drop_last(), accepted, accepted.subrange(0, grants.len() - 1));
    }
}

} // verus!
