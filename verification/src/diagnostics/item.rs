//! One machine-readable diagnostic and its closed location members.

use vstd::prelude::*;
use super::id::{DiagnosticCode, DiagnosticId, FixId, MessageId, OriginalCode};
use super::types::{Category, DataValue, FixApplicability, Severity};

verus! {

/// One end of a [`Range`]: 0-based byte, 1-based line and column.
#[derive(Clone, Copy, Debug, PartialEq, Eq, Structural)]
pub struct Position {
    pub byte: usize,
    pub line: usize,
    pub column: usize,
}

/// A half-open source range.
#[derive(Clone, Copy, Debug, PartialEq, Eq, Structural)]
pub struct Range {
    pub start: Position,
    pub end: Position,
}

/// One closed source location: logical path plus optional range.
#[derive(Clone, Debug, PartialEq, Eq)]
pub struct SourceLocation {
    pub path: Option<String>,
    pub range: Option<Range>,
}

/// A related location: registered relation, message id, and location.
#[derive(Clone, Debug, PartialEq, Eq)]
pub struct RelatedLocation {
    pub(crate) relation: DiagnosticId,
    pub(crate) message_id: MessageId,
    pub(crate) location: SourceLocation,
}

/// One immediate-to-root cause link.
#[derive(Clone, Debug, PartialEq, Eq)]
pub struct DiagnosticCause {
    pub(crate) id: DiagnosticId,
    pub(crate) code: DiagnosticCode,
    pub(crate) message_id: MessageId,
    pub(crate) message: String,
}

/// An inert suggested fix: advice only.
#[derive(Clone, Debug, PartialEq, Eq)]
pub struct SuggestedFix {
    pub(crate) fix_id: FixId,
    pub(crate) applicability: FixApplicability,
    pub(crate) message: String,
    pub(crate) target: Option<SourceLocation>,
}

/// The contract-level content of one diagnostic.
pub struct DiagnosticView {
    pub id: Seq<char>,
    pub code: Seq<char>,
    pub severity: Severity,
    pub category: Category,
    pub message_id: Seq<char>,
    pub message: Seq<char>,
    pub symbol: Option<Seq<char>>,
    pub path: Option<Seq<char>>,
    pub range: Option<Range>,
    pub data: Seq<(Seq<char>, DataValue)>,
    pub metadata: Seq<(Seq<char>, Seq<(Seq<char>, Seq<char>)>)>,
}

/// The view of one optional text.
pub open spec fn opt_text(s: Option<String>) -> Option<Seq<char>> {
    match s {
        Some(t) => Some(t@),
        None => None,
    }
}

/// The contract-level content of data members.
pub open spec fn data_view(d: Seq<(String, DataValue)>) -> Seq<(Seq<char>, DataValue)> {
    d.map_values(|m: (String, DataValue)| (m.0@, m.1))
}

/// The contract-level content of provider metadata: namespaces, each
/// with its named original codes.
pub open spec fn metadata_view(m: Seq<(String, Vec<(String, OriginalCode)>)>) -> Seq<(Seq<char>, Seq<(Seq<char>, Seq<char>)>)> {
    m.map_values(|e: (String, Vec<(String, OriginalCode)>)|
        (e.0@, e.1@.map_values(|c: (String, OriginalCode)| (c.0@, c.1@))))
}

/// The path of an optional source.
pub open spec fn path_of(source: Option<SourceLocation>) -> Option<Seq<char>> {
    match source {
        Some(src) => opt_text(src.path),
        None => None,
    }
}

/// The range of an optional source.
pub open spec fn range_of(source: Option<SourceLocation>) -> Option<Range> {
    match source {
        Some(src) => src.range,
        None => None,
    }
}

/// The stable machine-readable diagnostic. Producers construct it
/// only through the registry-backed builder.
#[derive(Clone, Debug, PartialEq, Eq)]
pub struct Diagnostic {
    pub(crate) id: DiagnosticId,
    pub(crate) code: DiagnosticCode,
    pub(crate) severity: Severity,
    pub(crate) category: Category,
    pub(crate) message_id: MessageId,
    pub(crate) message: String,
    pub(crate) symbol: Option<String>,
    pub(crate) source: Option<SourceLocation>,
    pub(crate) data: Vec<(String, DataValue)>,
    pub(crate) metadata: Vec<(String, Vec<(String, OriginalCode)>)>,
}

impl View for Diagnostic {
    type V = DiagnosticView;

    closed spec fn view(&self) -> DiagnosticView {
        DiagnosticView {
            id: self.id@,
            code: self.code@,
            severity: self.severity,
            category: self.category,
            message_id: self.message_id@,
            message: self.message@,
            symbol: opt_text(self.symbol),
            path: path_of(self.source),
            range: range_of(self.source),
            data: data_view(self.data@),
            metadata: metadata_view(self.metadata@),
        }
    }
}

impl Diagnostic {
    /// Assemble a diagnostic from validated parts.
    pub(crate) fn assemble(
        id: DiagnosticId,
        code: DiagnosticCode,
        severity: Severity,
        category: Category,
        message_id: MessageId,
        message: String,
        symbol: Option<String>,
        source: Option<SourceLocation>,
        data: Vec<(String, DataValue)>,
    ) -> (r: Diagnostic)
        ensures
            r@ == (DiagnosticView {
                id: id@,
                code: code@,
                severity: severity,
                category: category,
                message_id: message_id@,
                message: message@,
                symbol: opt_text(symbol),
                path: path_of(source),
                range: range_of(source),
                data: data_view(data@),
                metadata: Seq::empty(),
            }),
    {
        let r = Diagnostic {
            id,
            code,
            severity,
            category,
            message_id,
            message,
            symbol,
            source,
            data,
            metadata: Vec::new(),
        };
        assert(metadata_view(r.metadata@) =~= Seq::empty());
        r
    }

    /// The dotted rule id.
    pub fn id(&self) -> (r: &str)
        ensures
            r@ == self@.id,
    {
        self.id.as_str()
    }

    /// The immutable `LEK-SUBSYSTEM-NNN` code.
    pub fn code(&self) -> (r: &str)
        ensures
            r@ == self@.code,
    {
        self.code.as_str()
    }

    /// The registered severity.
    pub fn severity(&self) -> (r: Severity)
        ensures
            r == self@.severity,
    {
        self.severity
    }

    /// The registered category.
    pub fn category(&self) -> (r: Category)
        ensures
            r == self@.category,
    {
        self.category
    }

    /// The registry default message.
    pub fn message(&self) -> (r: &str)
        ensures
            r@ == self@.message,
    {
        self.message.as_str()
    }

    /// The bounded structured data, in key order.
    pub fn data(&self) -> (r: &Vec<(String, DataValue)>)
        ensures
            data_view(r@) == self@.data,
    {
        &self.data
    }

    /// The provider metadata: namespaces with their original codes.
    pub fn metadata(&self) -> (r: &Vec<(String, Vec<(String, OriginalCode)>)>)
        ensures
            metadata_view(r@) == self@.metadata,
    {
        &self.metadata
    }

    /// Replace the provider metadata.
    pub(crate) fn set_metadata(&mut self, metadata: Vec<(String, Vec<(String, OriginalCode)>)>)
        ensures
            final(self)@ == (DiagnosticView { metadata: metadata_view(metadata@), ..old(self)@ }),
    {
        self.metadata = metadata;
    }

    /// The logical path, when the diagnostic is located.
    pub fn path(&self) -> (r: Option<&str>)
        ensures
            match r {
                Some(p) => self@.path == Some(p@),
                None => self@.path is None,
            },
    {
        match &self.source {
            Some(src) => match &src.path {
                Some(p) => Some(p.as_str()),
                None => None,
            },
            None => None,
        }
    }

    /// The rule's message id.
    pub fn message_id(&self) -> (r: &str)
        ensures
            r@ == self@.message_id,
    {
        self.message_id.as_str()
    }

    /// The symbol the diagnostic names, if any.
    pub fn symbol(&self) -> (r: Option<&str>)
        ensures
            match r {
                Some(s) => self@.symbol == Some(s@),
                None => self@.symbol is None,
            },
    {
        match &self.symbol {
            Some(s) => Some(s.as_str()),
            None => None,
        }
    }

    /// The source span, when the diagnostic carries one.
    pub fn range(&self) -> (r: Option<Range>)
        ensures
            r == self@.range,
    {
        match &self.source {
            Some(src) => src.range,
            None => None,
        }
    }

    /// Exchange the structured data with `data`, handing back the
    /// previous data.
    pub(crate) fn swap_data(&mut self, data: &mut Vec<(String, DataValue)>)
        ensures
            data_view(final(data)@) == old(self)@.data,
            final(self)@ == (DiagnosticView { data: data_view(old(data)@), ..old(self)@ }),
    {
        std::mem::swap(&mut self.data, data);
    }

    /// The start position, when the diagnostic carries a span.
    pub fn start(&self) -> (r: Option<Position>)
        ensures
            match self@.range {
                Some(range) => r == Some(range.start),
                None => r is None,
            },
    {
        match &self.source {
            Some(src) => match src.range {
                Some(range) => Some(range.start),
                None => None,
            },
            None => None,
        }
    }
}


} // verus!
