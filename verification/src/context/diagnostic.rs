//! The fatal input refusals of capsule planning: a budget outside the
//! recorded bounds, an empty scope, or too many roots. Each is the
//! registered `graph.input-invalid` item with a bounded detail token, the
//! `context-plan` role, and the `context-capsule` target. A small budget
//! is never a refusal: it is in-band truncation metadata.

use vstd::prelude::*;
use crate::diagnostics::item::DiagnosticView;
use crate::diagnostics::set::{DiagnosticSet, build};
use crate::diagnostics::types::{DataValue, Status};
use crate::classification::diagnostic::{rule_item, token_member};
use crate::text::{bound_text, bounded_prefix};
use super::version::{MAX_BUDGET_TOKENS, MAX_ROOTS};

verus! {

/// The one-item refusal set of a capsule input violation.
pub open spec fn input_invalid(v: Seq<DiagnosticView>, detail: Seq<char>) -> bool {
    &&& v.len() == 1
    &&& rule_item(v[0], "graph.input-invalid"@)
    &&& v[0].data.len() == 3
    &&& token_member(v[0].data[0], "detail"@, bounded_prefix(detail, 256))
    &&& token_member(v[0].data[1], "role"@, "context-plan"@)
    &&& token_member(v[0].data[2], "target"@, "context-capsule"@)
}

/// The refusal set of one capsule input violation.
pub fn input_invalid_set(detail: &str) -> (r: DiagnosticSet)
    ensures
        input_invalid(r@, detail@),
{
    proof {
        crate::diagnostics::registry::lemma_found_graph_input_invalid();
        assert(crate::diagnostics::registry::rule_graph_input_invalid().statuses[0] == Status::Invalid);
        reveal_strlit("context-plan");
        reveal_strlit("context-capsule");
    }
    let mut data: Vec<(String, DataValue)> = Vec::new();
    data.push(("detail".to_owned(), DataValue::Token(bound_text(detail, 256))));
    data.push(("role".to_owned(), DataValue::Token("context-plan".to_owned())));
    data.push(("target".to_owned(), DataValue::Token("context-capsule".to_owned())));
    let ghost dv = data@;
    match build("graph.input-invalid", None, None, data) {
        Ok(d) => {
            proof {
                assert(crate::diagnostics::item::data_view(dv)[0] == (dv[0].0@, dv[0].1));
                assert(crate::diagnostics::item::data_view(dv)[1] == (dv[1].0@, dv[1].1));
                assert(crate::diagnostics::item::data_view(dv)[2] == (dv[2].0@, dv[2].1));
            }
            match DiagnosticSet::of_one(d, Status::Invalid) {
                Ok(set) => set,
                Err(_) => vstd::pervasive::unreached(),
            }
        },
        Err(_) => vstd::pervasive::unreached(),
    }
}

/// Whether a planning budget is outside the recorded bounds.
pub open spec fn budget_out_of_range(budget: u64) -> bool {
    budget == 0 || budget > MAX_BUDGET_TOKENS
}

/// The fatal refusal of a plan's scope and budget, checked in order: a
/// budget of zero or beyond the recorded bound, then an empty scope;
/// `None` when both are accepted.
pub fn plan_input_refusal(root_count: usize, budget: u64) -> (r: Option<DiagnosticSet>)
    ensures
        if budget_out_of_range(budget) {
            r matches Some(s) && input_invalid(s@, "budget-out-of-range"@)
        } else if root_count == 0 {
            r matches Some(s) && input_invalid(s@, "empty-scope"@)
        } else {
            r is None
        },
{
    if budget == 0 || budget > MAX_BUDGET_TOKENS {
        return Some(input_invalid_set("budget-out-of-range"));
    }
    if root_count == 0 {
        return Some(input_invalid_set("empty-scope"));
    }
    None
}

/// The fatal refusal of an over-bound root set, counted after the roots
/// are resolved and deduplicated.
pub fn root_limit_refusal(distinct_roots: usize) -> (r: Option<DiagnosticSet>)
    ensures
        if distinct_roots > MAX_ROOTS {
            r matches Some(s) && input_invalid(s@, "root-limit-exceeded"@)
        } else {
            r is None
        },
{
    if distinct_roots > MAX_ROOTS {
        Some(input_invalid_set("root-limit-exceeded"))
    } else {
        None
    }
}

} // verus!
