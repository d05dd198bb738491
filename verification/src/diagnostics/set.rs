//! Registry-backed construction and result sets of diagnostics.

use vstd::prelude::*;
use super::id::{DiagnosticCode, DiagnosticId, MessageId, is_diagnostic_code, is_rule_id};
use super::item::{Diagnostic, DiagnosticView, SourceLocation, data_view, opt_text, path_of, range_of};
use super::registry::{DiagnosticRegistry, Lifecycle, RuleRow, find_rule, rule_table, lemma_rule_table_valid, lemma_find_rule};
use super::types::{DataValue, Status};
use crate::text::str_eq;

verus! {

/// Why one diagnostic could not be built.
#[derive(Clone, Debug, PartialEq, Eq)]
pub enum BuildError {
    /// The registry could not be loaded or holds a malformed row.
    Registry,
    /// The rule id is not registered.
    UnknownRule(String),
    /// The rule is registered but not active.
    Inactive(String),
}

/// Why a set of diagnostics is refused.
#[derive(Clone, Debug, PartialEq, Eq)]
pub enum SetError {
    Registry,
    UnknownRule(String),
    StatusNotAllowed(String),
    OverLimit,
}

/// The diagnostic that the registry row `row` yields for `id`.
pub open spec fn built_view(
    id: Seq<char>,
    row: RuleRow,
    symbol: Option<String>,
    source: Option<SourceLocation>,
    data: Seq<(String, DataValue)>,
) -> DiagnosticView {
    DiagnosticView {
        id: id,
        code: row.code,
        severity: row.severity,
        category: row.category,
        message_id: id,
        message: row.message,
        symbol: opt_text(symbol),
        path: path_of(source),
        range: range_of(source),
        data: data_view(data),
        metadata: Seq::empty(),
    }
}

/// Build one diagnostic of a registered, active rule; identity, code,
/// severity, category, and message come from the registry row.
pub fn build(
    id: &str,
    symbol: Option<String>,
    source: Option<SourceLocation>,
    data: Vec<(String, DataValue)>,
) -> (r: Result<Diagnostic, BuildError>)
    ensures
        match find_rule(rule_table(), id@) {
            None => r matches Err(BuildError::UnknownRule(t)) && t@ == id@,
            Some(row) => if row.lifecycle != Lifecycle::Active {
                r matches Err(BuildError::Inactive(t)) && t@ == id@
            } else {
                r matches Ok(d) && d@ == built_view(id@, row, symbol, source, data@)
            },
        },
{
    proof {
        lemma_rule_table_valid();
        lemma_find_rule(rule_table(), id@);
    }
    let registry = match DiagnosticRegistry::embedded() {
        Ok(registry) => registry,
        Err(_) => return Err(BuildError::Registry),
    };
    let entry = match registry.entry(id) {
        Some(entry) => entry,
        None => return Err(BuildError::UnknownRule(id.to_owned())),
    };
    if entry.lifecycle() != Lifecycle::Active {
        return Err(BuildError::Inactive(id.to_owned()));
    }
    let rule = match DiagnosticId::new(id.to_owned()) {
        Some(rule) => rule,
        None => return Err(BuildError::Registry),
    };
    let code = match DiagnosticCode::new(entry.code().to_owned()) {
        Some(code) => code,
        None => return Err(BuildError::Registry),
    };
    let message_id = match MessageId::new(id.to_owned()) {
        Some(message_id) => message_id,
        None => return Err(BuildError::Registry),
    };
    let d = Diagnostic::assemble(
        rule,
        code,
        entry.default_severity(),
        entry.category(),
        message_id,
        entry.default_message().to_owned(),
        symbol,
        source,
        data,
    );
    Ok(d)
}

/// A normalized, validated result set of diagnostics.
#[derive(Clone, Debug, PartialEq, Eq)]
pub struct DiagnosticSet {
    diagnostics: Vec<Diagnostic>,
}

/// The views of a list of diagnostics.
pub open spec fn views(ds: Seq<Diagnostic>) -> Seq<DiagnosticView> {
    ds.map_values(|d: Diagnostic| d@)
}

/// The rule ids in order, each kept at its first occurrence only.
pub open spec fn unique_ids(views: Seq<DiagnosticView>) -> Seq<Seq<char>>
    decreases views.len(),
{
    if views.len() == 0 {
        Seq::empty()
    } else {
        let rest = unique_ids(views.drop_last());
        if rest.contains(views.last().id) {
            rest
        } else {
            rest.push(views.last().id)
        }
    }
}

impl View for DiagnosticSet {
    type V = Seq<DiagnosticView>;

    closed spec fn view(&self) -> Seq<DiagnosticView> {
        views(self.diagnostics@)
    }
}

impl DiagnosticSet {
    /// The empty set.
    pub fn empty() -> (r: DiagnosticSet)
        ensures
            r@ == Seq::<DiagnosticView>::empty(),
    {
        let r = DiagnosticSet { diagnostics: Vec::new() };
        assert(r@ =~= Seq::<DiagnosticView>::empty());
        r
    }

    /// The set holding exactly one diagnostic, when its rule is
    /// registered, active, and allowed under the envelope status.
    pub fn of_one(diagnostic: Diagnostic, status: Status) -> (r: Result<DiagnosticSet, SetError>)
        ensures
            match find_rule(rule_table(), diagnostic@.id) {
                None => r matches Err(SetError::UnknownRule(t)) && t@ == diagnostic@.id,
                Some(row) => if row.lifecycle != Lifecycle::Active {
                    r matches Err(SetError::UnknownRule(t)) && t@ == diagnostic@.id
                } else if !row.statuses.contains(status) {
                    r matches Err(SetError::StatusNotAllowed(t)) && t@ == diagnostic@.id
                } else {
                    r matches Ok(set) && set@ == seq![diagnostic@]
                },
            },
    {
        let registry = match DiagnosticRegistry::embedded() {
            Ok(registry) => registry,
            Err(_) => return Err(SetError::Registry),
        };
        let entry = match registry.entry(diagnostic.id()) {
            Some(entry) => entry,
            None => return Err(SetError::UnknownRule(diagnostic.id().to_owned())),
        };
        if entry.lifecycle() != Lifecycle::Active {
            return Err(SetError::UnknownRule(diagnostic.id().to_owned()));
        }
        if !entry.allows_status(status) {
            return Err(SetError::StatusNotAllowed(diagnostic.id().to_owned()));
        }
        let mut diagnostics = Vec::new();
        diagnostics.push(diagnostic);
        let r = DiagnosticSet { diagnostics };
        assert(r@ =~= seq![diagnostic@]);
        Ok(r)
    }

    /// Whether every diagnostic's rule is registered, active, and
    /// allowed under `status`.
    pub open spec fn all_allowed(items: Seq<DiagnosticView>, status: Status) -> bool {
        forall|k: int| 0 <= k < items.len() ==> {
            let row = find_rule(rule_table(), #[trigger] items[k].id);
            row is Some && row.unwrap().lifecycle == Lifecycle::Active && row.unwrap().statuses.contains(status)
        }
    }

    /// The set holding the given diagnostics in the given order, when
    /// every rule is registered, active, and allowed under the envelope
    /// status; otherwise the first offending rule is refused.
    pub(crate) fn of_list(items: Vec<Diagnostic>, status: Status) -> (r: Result<DiagnosticSet, SetError>)
        ensures
            Self::all_allowed(views(items@), status) <==> r is Ok,
            r matches Ok(set) ==> set@ == views(items@),
    {
        let registry = match DiagnosticRegistry::embedded() {
            Ok(registry) => registry,
            Err(_) => return Err(SetError::Registry),
        };
        let mut i: usize = 0;
        while i < items.len()
            invariant
                i <= items@.len(),
                registry@.1 == rule_table(),
                forall|k: int| 0 <= k < i ==> {
                    let row = find_rule(rule_table(), #[trigger] views(items@)[k].id);
                    row is Some && row.unwrap().lifecycle == Lifecycle::Active && row.unwrap().statuses.contains(status)
                },
            decreases items@.len() - i,
        {
            let id = items[i].id();
            assert(views(items@)[i as int].id == id@);
            let entry = match registry.entry(id) {
                Some(entry) => entry,
                None => return Err(SetError::UnknownRule(id.to_owned())),
            };
            if entry.lifecycle() != Lifecycle::Active {
                return Err(SetError::UnknownRule(id.to_owned()));
            }
            if !entry.allows_status(status) {
                return Err(SetError::StatusNotAllowed(id.to_owned()));
            }
            i = i + 1;
        }
        Ok(DiagnosticSet { diagnostics: items })
    }

    /// The diagnostics, handed out in order.
    pub(crate) fn into_items(self) -> (r: Vec<Diagnostic>)
        ensures
            views(r@) == self@,
    {
        self.diagnostics
    }

    /// The diagnostics in canonical order.
    pub fn as_slice(&self) -> (r: &[Diagnostic])
        ensures
            views(r@) == self@,
    {
        self.diagnostics.as_slice()
    }

    /// Whether the set is empty.
    pub fn is_empty(&self) -> (r: bool)
        ensures
            r == (self@.len() == 0),
    {
        self.diagnostics.len() == 0
    }

    /// The unique rule ids, each once, in the order of their first
    /// diagnostic in canonical order.
    pub fn reason_ids(&self) -> (r: Vec<&str>)
        ensures
            r@.map_values(|s: &str| s@) == unique_ids(self@),
    {
        let mut ids: Vec<&str> = Vec::new();
        let mut i: usize = 0;
        while i < self.diagnostics.len()
            invariant
                i <= self.diagnostics@.len(),
                ids@.map_values(|s: &str| s@) == unique_ids(views(self.diagnostics@.subrange(0, i as int))),
            decreases self.diagnostics@.len() - i,
        {
            let ghost before = ids@;
            let id = self.diagnostics[i].id();
            proof {
                let vs = views(self.diagnostics@.subrange(0, i + 1));
                assert(vs.drop_last() =~= views(self.diagnostics@.subrange(0, i as int)));
                assert(vs.last() == self.diagnostics@[i as int]@);
            }
            let mut seen = false;
            let mut k: usize = 0;
            while k < ids.len()
                invariant
                    ids@ == before,
                    k <= before.len(),
                    seen == exists|m: int| 0 <= m < k && before[m]@ == id@,
                decreases before.len() - k,
            {
                if str_eq(ids[k], id) {
                    seen = true;
                }
                k = k + 1;
            }
            proof {
                let mv = before.map_values(|s: &str| s@);
                if seen {
                    let m = choose|m: int| 0 <= m < before.len() && before[m]@ == id@;
                    assert(mv[m] == id@);
                } else {
                    assert forall|m: int| 0 <= m < mv.len() implies mv[m] != id@ by {
                        assert(mv[m] == before[m]@);
                    }
                }
            }
            if !seen {
                ids.push(id);
                assert(ids@.map_values(|s: &str| s@) =~= before.map_values(|s: &str| s@).push(id@));
            }
            i = i + 1;
        }
        assert(self.diagnostics@.subrange(0, self.diagnostics@.len() as int) =~= self.diagnostics@);
        ids
    }
}

/// Whether `set` is the one-item set of the bare diagnostic of rule
/// `id` under the `invalid` status (the empty set for an unknown rule).
pub open spec fn singleton_view(id: Seq<char>, set: Seq<DiagnosticView>) -> bool {
    match find_rule(rule_table(), id) {
        Some(row) => row.lifecycle == Lifecycle::Active && row.statuses.contains(Status::Invalid)
            ==> set == seq![built_view(id, row, None, None, Seq::empty())],
        None => set == Seq::<DiagnosticView>::empty(),
    }
}

/// The set holding one bare diagnostic of rule `id` under the `invalid`
/// status, or the empty set when the rule cannot appear there.
pub fn singleton_set(id: &str) -> (r: DiagnosticSet)
    ensures
        singleton_view(id@, r@),
{
    match build(id, None, None, Vec::new()) {
        Ok(d) => match DiagnosticSet::of_one(d, Status::Invalid) {
            Ok(set) => set,
            Err(_) => DiagnosticSet::empty(),
        },
        Err(_) => DiagnosticSet::empty(),
    }
}

} // verus!
