//! The closed provider diagnostic wire and its normalization.
//!
//! Untrusted producers may propose diagnostics only through
//! [`ProviderDiagnosticWire`]: a registered rule id, a bounded structured
//! payload, and a namespaced original code. Raw provider text is not
//! representable. A malformed, unregistered, or unsafe proposal is
//! refused, never rewritten, and collapses into the one core-owned
//! `adapter.diagnostic-invalid` diagnostic.

use vstd::prelude::*;
use super::id::{OriginalCode, ProviderNamespace};
use super::item::{Diagnostic, DiagnosticView, Range, SourceLocation, data_view, opt_text};
use super::registry::{Lifecycle, find_rule, rule_table};
use super::set::{BuildError, build};
use super::types::DataValue;
use crate::text::{bound_text, bounded_prefix, byte_len, chars_of, contains_char};
use crate::classification::diagnostic::token_member;

verus! {

/// Why a provider-proposed diagnostic was refused.
#[derive(Clone, Copy, Debug, PartialEq, Eq, Structural)]
pub enum ProviderRejection {
    /// The rule id is not registered or not currently emitted.
    UnknownRule,
    /// A path is absolute, escaping, or otherwise unsafe.
    UnsafePath,
    /// A field is malformed, over-limit, or of the wrong type.
    Malformed,
    /// A required namespaced original code is missing.
    MissingOriginalCode,
}

/// Why a proposal could not be read as a wire at all.
#[derive(Clone, Copy, Debug, PartialEq, Eq, Structural)]
pub enum WireError {
    /// The rule id is longer than 128 bytes.
    IdOverLimit,
    /// The symbol is longer than the token bound.
    SymbolOverLimit,
    /// The provider namespace is not a versioned reverse-DNS name.
    MalformedNamespace,
    /// The original code is not a bounded code.
    MalformedOriginalCode,
}

/// The maximum bytes of a proposed rule id.
pub const MAX_WIRE_ID_BYTES: usize = 128;

/// The maximum bytes of one token.
pub const TOKEN_BYTES: usize = 256;

/// The closed, bounded wire one untrusted provider may propose.
#[derive(Clone, Debug, PartialEq, Eq)]
pub struct ProviderDiagnosticWire {
    id: String,
    symbol: Option<String>,
    source: Option<SourceLocation>,
    namespace: ProviderNamespace,
    original_code: OriginalCode,
    data: Vec<(String, DataValue)>,
}

/// The content of a wire.
pub struct WireView {
    pub id: Seq<char>,
    pub symbol: Option<Seq<char>>,
    pub path: Option<Seq<char>>,
    pub range: Option<Range>,
    pub namespace: Seq<char>,
    pub original_code: Seq<char>,
    pub data: Seq<(Seq<char>, DataValue)>,
}

impl View for ProviderDiagnosticWire {
    type V = WireView;

    closed spec fn view(&self) -> WireView {
        WireView {
            id: self.id@,
            symbol: opt_text(self.symbol),
            path: match self.source {
                Some(src) => opt_text(src.path),
                None => None,
            },
            range: match self.source {
                Some(src) => src.range,
                None => None,
            },
            namespace: self.namespace@,
            original_code: self.original_code@,
            data: data_view(self.data@),
        }
    }
}

/// Why the given parts cannot form a wire, in the order they are read.
pub open spec fn wire_error(id: Seq<char>, symbol: Option<Seq<char>>, namespace: Seq<char>, original_code: Seq<char>)
    -> Option<WireError> {
    if byte_len(id) > MAX_WIRE_ID_BYTES {
        Some(WireError::IdOverLimit)
    } else if symbol matches Some(s) && byte_len(s) > TOKEN_BYTES {
        Some(WireError::SymbolOverLimit)
    } else if !super::id::is_provider_namespace(namespace) {
        Some(WireError::MalformedNamespace)
    } else if !super::id::is_original_code(original_code) {
        Some(WireError::MalformedOriginalCode)
    } else {
        None
    }
}

impl ProviderDiagnosticWire {
    /// Read one proposal from its parts: the id and symbol are bounded,
    /// the namespace and original code validated; a location exists when
    /// a path or a range is given.
    pub fn new(
        id: String,
        symbol: Option<String>,
        path: Option<String>,
        range: Option<Range>,
        namespace: String,
        original_code: String,
        data: Vec<(String, DataValue)>,
    ) -> (r: Result<ProviderDiagnosticWire, WireError>)
        ensures
            match wire_error(id@, opt_text(symbol), namespace@, original_code@) {
                Some(e) => r == Err::<ProviderDiagnosticWire, WireError>(e),
                None => r matches Ok(w) && w@ == (WireView {
                    id: id@,
                    symbol: opt_text(symbol),
                    path: opt_text(path),
                    range: range,
                    namespace: namespace@,
                    original_code: original_code@,
                    data: data_view(data@),
                }),
            },
    {
        if id.as_str().as_bytes().len() > MAX_WIRE_ID_BYTES {
            return Err(WireError::IdOverLimit);
        }
        match &symbol {
            Some(s) => {
                if s.as_str().as_bytes().len() > TOKEN_BYTES {
                    return Err(WireError::SymbolOverLimit);
                }
            },
            None => {},
        }
        let namespace = match ProviderNamespace::new(namespace) {
            Some(ns) => ns,
            None => return Err(WireError::MalformedNamespace),
        };
        let original_code = match OriginalCode::new(original_code) {
            Some(code) => code,
            None => return Err(WireError::MalformedOriginalCode),
        };
        let source = match (&path, &range) {
            (None, None) => None,
            _ => Some(SourceLocation { path, range }),
        };
        Ok(ProviderDiagnosticWire { id, symbol, source, namespace, original_code, data })
    }

    /// The proposed rule id.
    pub fn id(&self) -> (r: &str)
        ensures
            r@ == self@.id,
    {
        self.id.as_str()
    }
}

// ---------------------------------------------------------------------
// Path safety

/// A segment `.` or `..` starts at `i`.
pub open spec fn dot_segment_at(p: Seq<char>, i: int) -> bool {
    &&& 0 <= i < p.len()
    &&& (i == 0 || p[i - 1] == '/')
    &&& p[i] == '.'
    &&& (i + 1 == p.len() || p[i + 1] == '/' || (p[i + 1] == '.' && (i + 2 == p.len() || p[i + 2] == '/')))
}

/// A control character.
pub open spec fn is_control(c: char) -> bool {
    (c as u32) <= 0x1f || (0x7f <= (c as u32) && (c as u32) <= 0x9f)
}

/// A path that is not a logical project-relative path: empty,
/// absolute, with a backslash, a drive or scheme colon, a control
/// character, or a `.`/`..` segment.
pub open spec fn unsafe_path(p: Seq<char>) -> bool {
    ||| p.len() == 0
    ||| p[0] == '/'
    ||| contains_char(p, '\\')
    ||| contains_char(p, ':')
    ||| exists|i: int| 0 <= i < p.len() && is_control(#[trigger] p[i])
    ||| exists|i: int| #[trigger] dot_segment_at(p, i)
}

/// Whether a path is unsafe as a logical project-relative path.
pub fn is_unsafe_path(path: &str) -> (r: bool)
    ensures
        r == unsafe_path(path@),
{
    let p = chars_of(path);
    let n = p.len();
    if n == 0 {
        return true;
    }
    if p[0] == '/' {
        return true;
    }
    let mut i: usize = 0;
    while i < n
        invariant
            p@ == path@,
            n == p@.len(),
            n > 0,
            p@[0] != '/',
            i <= n,
            forall|j: int| 0 <= j < i ==> p@[j] != '\\' && p@[j] != ':' && !is_control(#[trigger] p@[j])
                && !dot_segment_at(p@, j),
        decreases n - i,
    {
        let c = p[i];
        if c == '\\' || c == ':' || (c as u32) <= 0x1f || (0x7f <= (c as u32) && (c as u32) <= 0x9f) {
            assert(p@[i as int] == c);
            return true;
        }
        if c == '.' && (i == 0 || p[i - 1] == '/') {
            if i + 1 == n || p[i + 1] == '/' || (p[i + 1] == '.' && (i + 2 == n || p[i + 2] == '/')) {
                assert(dot_segment_at(p@, i as int));
                return true;
            }
        }
        assert(!dot_segment_at(p@, i as int));
        i = i + 1;
    }
    proof {
        assert(!contains_char(p@, '\\'));
        assert(!contains_char(p@, ':'));
        assert(!(exists|j: int| 0 <= j < p@.len() && is_control(#[trigger] p@[j])));
        assert(!(exists|j: int| #[trigger] dot_segment_at(p@, j)));
    }
    false
}

// ---------------------------------------------------------------------
// Normalization

/// The core diagnostic a safe, registered proposal becomes: the
/// registry row's identity, severity, category and message, the
/// proposal's symbol, location and data, and its original code under
/// its namespace.
pub open spec fn normalized(w: WireView, d: DiagnosticView) -> bool {
    let row = find_rule(rule_table(), w.id).unwrap();
    &&& d.id == w.id
    &&& d.code == row.code
    &&& d.severity == row.severity
    &&& d.category == row.category
    &&& d.message_id == w.id
    &&& d.message == row.message
    &&& d.symbol == w.symbol
    &&& d.path == w.path
    &&& d.range == w.range
    &&& d.data == w.data
    &&& d.metadata == seq![(w.namespace, seq![("original_code"@, w.original_code)])]
}

/// Normalize one provider proposal into a core diagnostic: an unsafe
/// path is refused, an unregistered or inactive rule is refused, and a
/// registered rule yields its diagnostic with the namespaced original
/// code.
pub fn normalize(wire: ProviderDiagnosticWire) -> (r: Result<Diagnostic, ProviderRejection>)
    ensures
        if wire@.path matches Some(p) && unsafe_path(p) {
            r == Err::<Diagnostic, ProviderRejection>(ProviderRejection::UnsafePath)
        } else {
            match find_rule(rule_table(), wire@.id) {
                None => r == Err::<Diagnostic, ProviderRejection>(ProviderRejection::UnknownRule),
                Some(row) => if row.lifecycle != Lifecycle::Active {
                    r == Err::<Diagnostic, ProviderRejection>(ProviderRejection::UnknownRule)
                } else {
                    r matches Ok(d) && normalized(wire@, d@)
                },
            }
        },
{
    let ghost w = wire@;
    let ProviderDiagnosticWire { id, symbol, source, namespace, original_code, data } = wire;
    match &source {
        Some(src) => match &src.path {
            Some(p) => {
                if is_unsafe_path(p.as_str()) {
                    return Err(ProviderRejection::UnsafePath);
                }
            },
            None => {},
        },
        None => {},
    }
    let mut diagnostic = match build(id.as_str(), symbol, source, data) {
        Ok(d) => d,
        Err(BuildError::UnknownRule(_)) => return Err(ProviderRejection::UnknownRule),
        Err(BuildError::Inactive(_)) => return Err(ProviderRejection::UnknownRule),
        Err(BuildError::Registry) => return Err(ProviderRejection::Malformed),
    };
    let mut entry: Vec<(String, OriginalCode)> = Vec::new();
    entry.push(("original_code".to_owned(), original_code));
    let mut metadata: Vec<(String, Vec<(String, OriginalCode)>)> = Vec::new();
    metadata.push((namespace.as_str().to_owned(), entry));
    diagnostic.set_metadata(metadata);
    proof {
        assert(super::item::metadata_view(metadata@) =~= seq![(w.namespace, seq![("original_code"@, w.original_code)])]) by {
            assert(metadata@[0].1@.map_values(|c: (String, OriginalCode)| (c.0@, c.1@))
                =~= seq![("original_code"@, w.original_code)]);
        }
    }
    Ok(diagnostic)
}

/// The one bounded core diagnostic a refused proposal collapses into:
/// `adapter.diagnostic-invalid` with the bounded reason token.
pub fn rejection_diagnostic(reason: &str) -> (r: Diagnostic)
    ensures
        r@.id == "adapter.diagnostic-invalid"@,
        r@.code == super::registry::rule_adapter_diagnostic_invalid().code,
        r@.message == super::registry::rule_adapter_diagnostic_invalid().message,
        r@.symbol is None,
        r@.path is None,
        r@.range is None,
        r@.data.len() == 1,
        token_member(r@.data[0], "reason"@, bounded_prefix(reason@, 256)),
        r@.metadata.len() == 0,
{
    proof {
        super::registry::lemma_found_adapter_diagnostic_invalid();
    }
    let mut data: Vec<(String, DataValue)> = Vec::new();
    data.push(("reason".to_owned(), DataValue::Token(bound_text(reason, TOKEN_BYTES))));
    let ghost d = data@;
    match build("adapter.diagnostic-invalid", None, None, data) {
        Ok(diagnostic) => diagnostic,
        Err(_) => vstd::pervasive::unreached(),
    }
}

} // verus!
