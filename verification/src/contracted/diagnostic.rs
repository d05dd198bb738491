//! The registered `contracted.*` diagnostics. Every failure or finding
//! is one registry-backed item; echoed tokens are bounded after grammar
//! validation, so raw input never scales the envelope.

use vstd::prelude::*;
use crate::diagnostics::item::{Diagnostic, DiagnosticView};
use crate::diagnostics::registry::{RuleRow, find_rule, rule_table};
use crate::diagnostics::set::{DiagnosticSet, build, built_view};
use crate::diagnostics::types::{DataValue, Status};
use crate::text::{bound_text, bounded_prefix, utf8_width};
use crate::classification::diagnostic::{token_member, usable_rule};

verus! {

/// The echo bound of one token, in UTF-8 bytes.
pub const ECHO_BYTES: usize = 256;

/// The longest prefix of a text whose UTF-8 size fits `budget`, cut at
/// a character boundary.
pub open spec fn byte_prefix(s: Seq<char>, budget: nat) -> Seq<char>
    decreases s.len(),
{
    if s.len() == 0 {
        Seq::empty()
    } else if utf8_width(s[0]) <= budget {
        seq![s[0]] + byte_prefix(s.drop_first(), (budget - utf8_width(s[0])) as nat)
    } else {
        Seq::empty()
    }
}

/// The echo of a text: its longest prefix of at most `ECHO_BYTES`
/// UTF-8 bytes.
pub open spec fn echo_of(s: Seq<char>) -> Seq<char> {
    byte_prefix(s, ECHO_BYTES as nat)
}

proof fn lemma_byte_prefix_step(s: Seq<char>, i: int, budget: nat)
    requires
        0 <= i < s.len(),
    ensures
        byte_prefix(s.subrange(i, s.len() as int), budget) == (if utf8_width(s[i]) <= budget {
            seq![s[i]] + byte_prefix(s.subrange(i + 1, s.len() as int), (budget - utf8_width(s[i])) as nat)
        } else {
            Seq::empty()
        }),
{
    assert(s.subrange(i, s.len() as int).drop_first() =~= s.subrange(i + 1, s.len() as int));
}

/// The bounded token echo: the text cut, at a character boundary, to at
/// most 256 UTF-8 bytes.
pub fn bounded(value: &str) -> (r: String)
    ensures
        r@ == echo_of(value@),
{
    let n = value.unicode_len();
    let mut out = String::new();
    let mut left: usize = ECHO_BYTES;
    let mut i: usize = 0;
    assert(value@.subrange(0, n as int) =~= value@);
    while i < n
        invariant
            n == value@.len(),
            i <= n,
            left <= ECHO_BYTES,
            out@ + byte_prefix(value@.subrange(i as int, n as int), left as nat) == echo_of(value@),
        decreases n - i,
    {
        let c = value.get_char(i);
        let width: usize = if (c as u32) < 0x80 { 1 } else if (c as u32) < 0x800 { 2 } else if (c as u32) < 0x10000 { 3 } else { 4 };
        proof { lemma_byte_prefix_step(value@, i as int, left as nat); }
        if width > left {
            assert(out@ =~= echo_of(value@));
            return out;
        }
        let ghost before = out@;
        crate::text::push_char(&mut out, c);
        assert(out@ + byte_prefix(value@.subrange(i + 1, n as int), (left - width) as nat) =~= before
            + byte_prefix(value@.subrange(i as int, n as int), left as nat));
        left = left - width;
        i = i + 1;
    }
    assert(value@.subrange(n as int, n as int) =~= Seq::<char>::empty());
    assert(out@ =~= echo_of(value@));
    out
}

/// The bounded token of a text, as a data member value.
pub open spec fn token_of(s: Seq<char>) -> Seq<char> {
    bounded_prefix(s, 256)
}

/// A contracted item of rule `rule`: identity, code, severity,
/// category, and message from the registry row; the given symbol; no
/// location.
pub open spec fn contracted_item(d: DiagnosticView, rule: Seq<char>, symbol: Option<Seq<char>>) -> bool {
    let row = find_rule(rule_table(), rule).unwrap();
    &&& d.id == rule
    &&& d.code == row.code
    &&& d.severity == row.severity
    &&& d.category == row.category
    &&& d.message_id == rule
    &&& d.message == row.message
    &&& d.symbol == symbol
    &&& d.path is None
    &&& d.range is None
}

/// An item of rule `rule` with one token member `key`.
pub open spec fn token_item(d: DiagnosticView, rule: Seq<char>, symbol: Option<Seq<char>>, key: Seq<char>,
    text: Seq<char>) -> bool {
    &&& contracted_item(d, rule, symbol)
    &&& d.data.len() == 1
    &&& token_member(d.data[0], key, token_of(text))
}

/// The one-item set of `rule` with one token member `key`.
pub open spec fn token_set(v: Seq<DiagnosticView>, rule: Seq<char>, symbol: Option<Seq<char>>, key: Seq<char>,
    text: Seq<char>) -> bool {
    v.len() == 1 && token_item(v[0], rule, symbol, key, text)
}

/// One registered item finalized into its one-item `invalid` set.
fn one(rule: &str, symbol: Option<String>, data: Vec<(String, DataValue)>) -> (r: DiagnosticSet)
    requires
        usable_rule(rule@),
    ensures
        r@ == seq![built_view(rule@, find_rule(rule_table(), rule@).unwrap(), symbol, None, data@)],
{
    let ghost sym = symbol;
    let ghost d_v = data@;
    match build(rule, symbol, None, data) {
        Ok(d) => match DiagnosticSet::of_one(d, Status::Invalid) {
            Ok(set) => set,
            Err(_) => vstd::pervasive::unreached(),
        },
        Err(_) => vstd::pervasive::unreached(),
    }
}

/// The set refusing a declaration document or a malformed registry:
/// `detail` is a fixed tag, `target` an optional echoed token.
pub fn declaration_invalid_set(detail: &str, target: Option<&str>) -> (r: DiagnosticSet)
    ensures
        r@.len() == 1,
        contracted_item(r@[0], "contracted.declaration-invalid"@, None),
        r@[0].data.len() == if target is Some { 2int } else { 1int },
        token_member(r@[0].data[0], "detail"@, token_of(detail@)),
        target matches Some(t) ==> token_member(r@[0].data[1], "target"@, token_of(t@)),
{
    proof {
        crate::diagnostics::registry::lemma_found_contracted_declaration_invalid();
        assert(crate::diagnostics::registry::rule_contracted_declaration_invalid().statuses.contains(Status::Invalid)) by {
            assert(crate::diagnostics::registry::rule_contracted_declaration_invalid().statuses[0] == Status::Invalid);
        }
    }
    let mut data: Vec<(String, DataValue)> = Vec::new();
    data.push(("detail".to_owned(), DataValue::Token(bound_text(detail, 256))));
    match target {
        Some(t) => data.push(("target".to_owned(), DataValue::Token(bound_text(t, 256)))),
        None => {},
    }
    one("contracted.declaration-invalid", None, data)
}

/// The set refusing an over-bound declaration or registry document.
pub fn declaration_limit_set(limit: &str, found: usize) -> (r: DiagnosticSet)
    ensures
        r@.len() == 1,
        contracted_item(r@[0], "contracted.declaration-limit"@, None),
        r@[0].data.len() == 2,
        r@[0].data[0].0 == "found"@,
        r@[0].data[0].1 == DataValue::Count(found as u64),
        token_member(r@[0].data[1], "limit"@, token_of(limit@)),
{
    proof {
        crate::diagnostics::registry::lemma_found_contracted_declaration_limit();
        assert(crate::diagnostics::registry::rule_contracted_declaration_limit().statuses.contains(Status::Invalid)) by {
            assert(crate::diagnostics::registry::rule_contracted_declaration_limit().statuses[0] == Status::Invalid);
        }
    }
    let mut data: Vec<(String, DataValue)> = Vec::new();
    data.push(("found".to_owned(), DataValue::Count(found as u64)));
    data.push(("limit".to_owned(), DataValue::Token(bound_text(limit, 256))));
    one("contracted.declaration-limit", None, data)
}

/// The set refusing a declaration that names an undeclared module.
pub fn unknown_module_set(module: &str) -> (r: DiagnosticSet)
    ensures
        token_set(r@, "contracted.unknown-module"@, None, "module"@, module@),
{
    proof {
        crate::diagnostics::registry::lemma_found_contracted_unknown_module();
        assert(crate::diagnostics::registry::rule_contracted_unknown_module().statuses.contains(Status::Invalid)) by {
            assert(crate::diagnostics::registry::rule_contracted_unknown_module().statuses[0] == Status::Invalid);
        }
    }
    let mut data: Vec<(String, DataValue)> = Vec::new();
    data.push(("module".to_owned(), DataValue::Token(bound_text(module, 256))));
    one("contracted.unknown-module", None, data)
}

/// The set refusing a declaration that names an undeclared symbol.
pub fn unknown_symbol_set(symbol: &str) -> (r: DiagnosticSet)
    ensures
        token_set(r@, "contracted.unknown-symbol"@, None, "symbol"@, symbol@),
{
    proof {
        crate::diagnostics::registry::lemma_found_contracted_unknown_symbol();
        assert(crate::diagnostics::registry::rule_contracted_unknown_symbol().statuses.contains(Status::Invalid)) by {
            assert(crate::diagnostics::registry::rule_contracted_unknown_symbol().statuses[0] == Status::Invalid);
        }
    }
    let mut data: Vec<(String, DataValue)> = Vec::new();
    data.push(("symbol".to_owned(), DataValue::Token(bound_text(symbol, 256))));
    one("contracted.unknown-symbol", None, data)
}

/// The set for a registry read or write failure or a noncanonical
/// persisted document.
pub fn registry_io_set(detail: &str) -> (r: DiagnosticSet)
    ensures
        token_set(r@, "contracted.registry-io"@, None, "detail"@, detail@),
{
    proof {
        crate::diagnostics::registry::lemma_found_contracted_registry_io();
        assert(crate::diagnostics::registry::rule_contracted_registry_io().statuses.contains(Status::Invalid)) by {
            assert(crate::diagnostics::registry::rule_contracted_registry_io().statuses[0] == Status::Invalid);
        }
    }
    let mut data: Vec<(String, DataValue)> = Vec::new();
    data.push(("detail".to_owned(), DataValue::Token(bound_text(detail, 256))));
    one("contracted.registry-io", None, data)
}

/// The set for a selector naming no recorded conformed symbol; the
/// echoed symbol is also the item's symbol.
pub fn selector_unknown_set(symbol: &str) -> (r: DiagnosticSet)
    ensures
        token_set(r@, "contracted.unknown-symbol"@, Some(echo_of(symbol@)), "symbol"@, symbol@),
{
    proof {
        crate::diagnostics::registry::lemma_found_contracted_unknown_symbol();
        assert(crate::diagnostics::registry::rule_contracted_unknown_symbol().statuses.contains(Status::Invalid)) by {
            assert(crate::diagnostics::registry::rule_contracted_unknown_symbol().statuses[0] == Status::Invalid);
        }
    }
    let mut data: Vec<(String, DataValue)> = Vec::new();
    data.push(("symbol".to_owned(), DataValue::Token(bound_text(symbol, 256))));
    one("contracted.unknown-symbol", Some(bounded(symbol)), data)
}

/// One conformance item of rule `rule` for `subject`, with a fixed detail.
fn conformance_item(rule: &str, subject: &str, detail: &str) -> (r: Option<Diagnostic>)
    requires
        usable_rule(rule@),
    ensures
        r matches Some(d) && token_item(d@, rule@, Some(echo_of(subject@)), "detail"@, detail@),
{
    let mut data: Vec<(String, DataValue)> = Vec::new();
    data.push(("detail".to_owned(), DataValue::Token(bound_text(detail, 256))));
    match build(rule, Some(bounded(subject)), None, data) {
        Ok(d) => Some(d),
        Err(_) => None,
    }
}

/// One conformance-drift item of a conformance run.
pub fn try_drift_item(symbol: &str, detail: &str) -> (r: Option<Diagnostic>)
    ensures
        r matches Some(d) && token_item(d@, "contracted.binding-drift"@, Some(echo_of(symbol@)), "detail"@, detail@),
{
    proof {
        crate::diagnostics::registry::lemma_found_contracted_binding_drift();
        assert(crate::diagnostics::registry::rule_contracted_binding_drift().statuses.contains(Status::Invalid)) by {
            assert(crate::diagnostics::registry::rule_contracted_binding_drift().statuses[0] == Status::Invalid);
        }
    }
    conformance_item("contracted.binding-drift", symbol, detail)
}

/// One stale support-artifact item of a conformance run.
pub fn try_stale_artifact_item(path: &str) -> (r: Option<Diagnostic>)
    ensures
        r matches Some(d) && token_item(d@, "contracted.stale-artifact"@, Some(echo_of(path@)), "detail"@, "content-stale"@),
{
    proof {
        crate::diagnostics::registry::lemma_found_contracted_stale_artifact();
        assert(crate::diagnostics::registry::rule_contracted_stale_artifact().statuses.contains(Status::Invalid)) by {
            assert(crate::diagnostics::registry::rule_contracted_stale_artifact().statuses[0] == Status::Invalid);
        }
    }
    conformance_item("contracted.stale-artifact", path, "content-stale")
}

/// One coverage-gap item of a conformance run.
pub fn try_coverage_item(symbol: &str) -> (r: Option<Diagnostic>)
    ensures
        r matches Some(d) && token_item(d@, "contracted.coverage-missing"@, Some(echo_of(symbol@)), "detail"@, "no-native-test"@),
{
    proof {
        crate::diagnostics::registry::lemma_found_contracted_coverage_missing();
        assert(crate::diagnostics::registry::rule_contracted_coverage_missing().statuses.contains(Status::Invalid)) by {
            assert(crate::diagnostics::registry::rule_contracted_coverage_missing().statuses[0] == Status::Invalid);
        }
    }
    conformance_item("contracted.coverage-missing", symbol, "no-native-test")
}

} // verus!
