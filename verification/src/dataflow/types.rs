//! The closed row vocabulary of the data-flow report. Every member is
//! bounded, closed, and metadata-only: findings reference subjects by
//! path and carry fixed detail tokens; flows carry kinds, confidence,
//! provenance, tenant relation, and the gating state.

use vstd::prelude::*;
use crate::text::{byte_len, has_prefix, is_lower, str_eq, str_starts_with, text3_le, text3_le_exec,
    lemma_text3_le_order};
use crate::json::{JsonValue, array_of, as_text, bool_of, get, get_array, get_bool, get_text, is_object, member_count, texts_of,
    member, text_of};
use crate::classification::types::{DataKind, SubjectPath, subject_error};
use crate::classification::wire::text_member;

pub use crate::classification::types::VocabularyError;

verus! {

/// The closed confidence vocabulary.
#[derive(Clone, Copy, Debug, PartialEq, Eq, Structural)]
pub enum Confidence {
    /// `high`
    High,
    /// `low`
    Low,
    /// `unknown`
    Unknown,
}

impl Confidence {
    /// The wire spelling of each member.
    pub open spec fn spec_text(self) -> Seq<char> {
        match self {
            Confidence::High => "high"@,
            Confidence::Low => "low"@,
            Confidence::Unknown => "unknown"@,
        }
    }

    /// The exact wire spelling.
    pub fn as_str(self) -> (r: &'static str)
        ensures
            r@ == self.spec_text(),
    {
        match self {
            Confidence::High => "high",
            Confidence::Low => "low",
            Confidence::Unknown => "unknown",
        }
    }

    /// The member spelled `t`, if any.
    pub open spec fn spec_parse(t: Seq<char>) -> Option<Confidence> {
        if t == "high"@ {
            Some(Confidence::High)
        } else if t == "low"@ {
            Some(Confidence::Low)
        } else if t == "unknown"@ {
            Some(Confidence::Unknown)
        } else {
            None
        }
    }

    /// Parse the exact wire spelling.
    pub fn parse(text: &str) -> (r: Option<Confidence>)
        ensures
            r == Confidence::spec_parse(text@),
    {
        if str_eq(text, "high") {
            Some(Confidence::High)
        } else if str_eq(text, "low") {
            Some(Confidence::Low)
        } else if str_eq(text, "unknown") {
            Some(Confidence::Unknown)
        } else {
            None
        }
    }
}

/// Every `Confidence` spelling parses back to its member, and nothing
/// else parses to that member.
pub proof fn lemma_confidence_round_trip(x: Confidence, t: Seq<char>)
    ensures
        Confidence::spec_parse(x.spec_text()) == Some(x),
        Confidence::spec_parse(t) == Some(x) ==> t == x.spec_text(),
{
    reveal_strlit("high");
    reveal_strlit("low");
    reveal_strlit("unknown");
    assert("high"@.len() == 4);
    assert("low"@.len() == 3);
    assert("unknown"@.len() == 7);
}

/// The closed flow-provenance vocabulary: `canonical` comes from the closed Model/IR, `observed` from recorded evidence, `declared` is unverified.
#[derive(Clone, Copy, Debug, PartialEq, Eq, Structural)]
pub enum Provenance {
    /// `canonical`
    Canonical,
    /// `observed`
    Observed,
    /// `declared`
    Declared,
}

impl Provenance {
    /// The wire spelling of each member.
    pub open spec fn spec_text(self) -> Seq<char> {
        match self {
            Provenance::Canonical => "canonical"@,
            Provenance::Observed => "observed"@,
            Provenance::Declared => "declared"@,
        }
    }

    /// The exact wire spelling.
    pub fn as_str(self) -> (r: &'static str)
        ensures
            r@ == self.spec_text(),
    {
        match self {
            Provenance::Canonical => "canonical",
            Provenance::Observed => "observed",
            Provenance::Declared => "declared",
        }
    }

    /// The member spelled `t`, if any.
    pub open spec fn spec_parse(t: Seq<char>) -> Option<Provenance> {
        if t == "canonical"@ {
            Some(Provenance::Canonical)
        } else if t == "observed"@ {
            Some(Provenance::Observed)
        } else if t == "declared"@ {
            Some(Provenance::Declared)
        } else {
            None
        }
    }

    /// Parse the exact wire spelling.
    pub fn parse(text: &str) -> (r: Option<Provenance>)
        ensures
            r == Provenance::spec_parse(text@),
    {
        if str_eq(text, "canonical") {
            Some(Provenance::Canonical)
        } else if str_eq(text, "observed") {
            Some(Provenance::Observed)
        } else if str_eq(text, "declared") {
            Some(Provenance::Declared)
        } else {
            None
        }
    }
}

/// Every `Provenance` spelling parses back to its member, and nothing
/// else parses to that member.
pub proof fn lemma_provenance_round_trip(x: Provenance, t: Seq<char>)
    ensures
        Provenance::spec_parse(x.spec_text()) == Some(x),
        Provenance::spec_parse(t) == Some(x) ==> t == x.spec_text(),
{
    reveal_strlit("canonical");
    reveal_strlit("observed");
    reveal_strlit("declared");
    assert("canonical"@.len() == 9);
    assert("observed"@.len() == 8);
    assert("declared"@.len() == 8);
    assert("observed"@[0] == 'o');
    assert("declared"@[0] == 'd');
}

/// The closed tenant-relation vocabulary; `unknown` counts as crossing.
#[derive(Clone, Copy, Debug, PartialEq, Eq, Structural)]
pub enum TenantRelation {
    /// `same`
    Same,
    /// `crossing`
    Crossing,
    /// `unknown`
    Unknown,
}

impl TenantRelation {
    /// The wire spelling of each member.
    pub open spec fn spec_text(self) -> Seq<char> {
        match self {
            TenantRelation::Same => "same"@,
            TenantRelation::Crossing => "crossing"@,
            TenantRelation::Unknown => "unknown"@,
        }
    }

    /// The exact wire spelling.
    pub fn as_str(self) -> (r: &'static str)
        ensures
            r@ == self.spec_text(),
    {
        match self {
            TenantRelation::Same => "same",
            TenantRelation::Crossing => "crossing",
            TenantRelation::Unknown => "unknown",
        }
    }

    /// The member spelled `t`, if any.
    pub open spec fn spec_parse(t: Seq<char>) -> Option<TenantRelation> {
        if t == "same"@ {
            Some(TenantRelation::Same)
        } else if t == "crossing"@ {
            Some(TenantRelation::Crossing)
        } else if t == "unknown"@ {
            Some(TenantRelation::Unknown)
        } else {
            None
        }
    }

    /// Parse the exact wire spelling.
    pub fn parse(text: &str) -> (r: Option<TenantRelation>)
        ensures
            r == TenantRelation::spec_parse(text@),
    {
        if str_eq(text, "same") {
            Some(TenantRelation::Same)
        } else if str_eq(text, "crossing") {
            Some(TenantRelation::Crossing)
        } else if str_eq(text, "unknown") {
            Some(TenantRelation::Unknown)
        } else {
            None
        }
    }
}

/// Every `TenantRelation` spelling parses back to its member, and nothing
/// else parses to that member.
pub proof fn lemma_tenant_relation_round_trip(x: TenantRelation, t: Seq<char>)
    ensures
        TenantRelation::spec_parse(x.spec_text()) == Some(x),
        TenantRelation::spec_parse(t) == Some(x) ==> t == x.spec_text(),
{
    reveal_strlit("same");
    reveal_strlit("crossing");
    reveal_strlit("unknown");
    assert("same"@.len() == 4);
    assert("crossing"@.len() == 8);
    assert("unknown"@.len() == 7);
}

/// The closed sink vocabulary of the data-flow projection.
#[derive(Clone, Copy, Debug, PartialEq, Eq, Structural)]
pub enum SinkKind {
    /// `storage-write`
    StorageWrite,
    /// `cache-write`
    CacheWrite,
    /// `event-publish`
    EventPublish,
    /// `external-call`
    ExternalCall,
    /// `publication`
    Publication,
    /// `endpoint-response`
    EndpointResponse,
    /// `log`
    Log,
    /// `trace`
    Trace,
    /// `context-capsule`
    ContextCapsule,
    /// `diagnostic`
    Diagnostic,
    /// `evidence`
    Evidence,
    /// `export`
    Export,
}

impl SinkKind {
    /// The wire spelling of each member.
    pub open spec fn spec_text(self) -> Seq<char> {
        match self {
            SinkKind::StorageWrite => "storage-write"@,
            SinkKind::CacheWrite => "cache-write"@,
            SinkKind::EventPublish => "event-publish"@,
            SinkKind::ExternalCall => "external-call"@,
            SinkKind::Publication => "publication"@,
            SinkKind::EndpointResponse => "endpoint-response"@,
            SinkKind::Log => "log"@,
            SinkKind::Trace => "trace"@,
            SinkKind::ContextCapsule => "context-capsule"@,
            SinkKind::Diagnostic => "diagnostic"@,
            SinkKind::Evidence => "evidence"@,
            SinkKind::Export => "export"@,
        }
    }

    /// The exact wire spelling.
    pub fn as_str(self) -> (r: &'static str)
        ensures
            r@ == self.spec_text(),
    {
        match self {
            SinkKind::StorageWrite => "storage-write",
            SinkKind::CacheWrite => "cache-write",
            SinkKind::EventPublish => "event-publish",
            SinkKind::ExternalCall => "external-call",
            SinkKind::Publication => "publication",
            SinkKind::EndpointResponse => "endpoint-response",
            SinkKind::Log => "log",
            SinkKind::Trace => "trace",
            SinkKind::ContextCapsule => "context-capsule",
            SinkKind::Diagnostic => "diagnostic",
            SinkKind::Evidence => "evidence",
            SinkKind::Export => "export",
        }
    }

    /// The member spelled `t`, if any.
    pub open spec fn spec_parse(t: Seq<char>) -> Option<SinkKind> {
        if t == "storage-write"@ {
            Some(SinkKind::StorageWrite)
        } else if t == "cache-write"@ {
            Some(SinkKind::CacheWrite)
        } else if t == "event-publish"@ {
            Some(SinkKind::EventPublish)
        } else if t == "external-call"@ {
            Some(SinkKind::ExternalCall)
        } else if t == "publication"@ {
            Some(SinkKind::Publication)
        } else if t == "endpoint-response"@ {
            Some(SinkKind::EndpointResponse)
        } else if t == "log"@ {
            Some(SinkKind::Log)
        } else if t == "trace"@ {
            Some(SinkKind::Trace)
        } else if t == "context-capsule"@ {
            Some(SinkKind::ContextCapsule)
        } else if t == "diagnostic"@ {
            Some(SinkKind::Diagnostic)
        } else if t == "evidence"@ {
            Some(SinkKind::Evidence)
        } else if t == "export"@ {
            Some(SinkKind::Export)
        } else {
            None
        }
    }

    /// Parse the exact wire spelling.
    pub fn parse(text: &str) -> (r: Option<SinkKind>)
        ensures
            r == SinkKind::spec_parse(text@),
    {
        if str_eq(text, "storage-write") {
            Some(SinkKind::StorageWrite)
        } else if str_eq(text, "cache-write") {
            Some(SinkKind::CacheWrite)
        } else if str_eq(text, "event-publish") {
            Some(SinkKind::EventPublish)
        } else if str_eq(text, "external-call") {
            Some(SinkKind::ExternalCall)
        } else if str_eq(text, "publication") {
            Some(SinkKind::Publication)
        } else if str_eq(text, "endpoint-response") {
            Some(SinkKind::EndpointResponse)
        } else if str_eq(text, "log") {
            Some(SinkKind::Log)
        } else if str_eq(text, "trace") {
            Some(SinkKind::Trace)
        } else if str_eq(text, "context-capsule") {
            Some(SinkKind::ContextCapsule)
        } else if str_eq(text, "diagnostic") {
            Some(SinkKind::Diagnostic)
        } else if str_eq(text, "evidence") {
            Some(SinkKind::Evidence)
        } else if str_eq(text, "export") {
            Some(SinkKind::Export)
        } else {
            None
        }
    }

    /// Whether the sink is one of the non-model policy surfaces.
    pub open spec fn spec_is_policy_sink(self) -> bool {
        self is Log || self is Trace || self is ContextCapsule || self is Diagnostic || self is Evidence
            || self is Export
    }

    /// Whether the sink is one of the non-model policy surfaces.
    pub fn is_policy_sink(self) -> (r: bool)
        ensures
            r == self.spec_is_policy_sink(),
    {
        match self {
            SinkKind::Log | SinkKind::Trace | SinkKind::ContextCapsule | SinkKind::Diagnostic
            | SinkKind::Evidence | SinkKind::Export => true,
            _ => false,
        }
    }

    /// Whether the sink is a gated surface: external call,
    /// publication, public-endpoint response, export, and cache.
    pub open spec fn spec_is_gated(self) -> bool {
        self is ExternalCall || self is Publication || self is EndpointResponse || self is CacheWrite || self is Export
    }

    /// Whether the sink is a gated surface.
    pub fn is_gated(self) -> (r: bool)
        ensures
            r == self.spec_is_gated(),
    {
        match self {
            SinkKind::ExternalCall | SinkKind::Publication | SinkKind::EndpointResponse | SinkKind::CacheWrite
            | SinkKind::Export => true,
            _ => false,
        }
    }
}

/// Every `SinkKind` spelling parses back to its member, and nothing
/// else parses to that member.
pub proof fn lemma_sink_kind_round_trip(x: SinkKind, t: Seq<char>)
    ensures
        SinkKind::spec_parse(x.spec_text()) == Some(x),
        SinkKind::spec_parse(t) == Some(x) ==> t == x.spec_text(),
{
    reveal_strlit("storage-write");
    reveal_strlit("cache-write");
    reveal_strlit("event-publish");
    reveal_strlit("external-call");
    reveal_strlit("publication");
    reveal_strlit("endpoint-response");
    reveal_strlit("log");
    reveal_strlit("trace");
    reveal_strlit("context-capsule");
    reveal_strlit("diagnostic");
    reveal_strlit("evidence");
    reveal_strlit("export");
    assert("storage-write"@.len() == 13);
    assert("cache-write"@.len() == 11);
    assert("event-publish"@.len() == 13);
    assert("external-call"@.len() == 13);
    assert("publication"@.len() == 11);
    assert("endpoint-response"@.len() == 17);
    assert("log"@.len() == 3);
    assert("trace"@.len() == 5);
    assert("context-capsule"@.len() == 15);
    assert("diagnostic"@.len() == 10);
    assert("evidence"@.len() == 8);
    assert("export"@.len() == 6);
    assert("storage-write"@[0] == 's');
    assert("event-publish"@[0] == 'e');
    assert("external-call"@[0] == 'e');
    assert("cache-write"@[0] == 'c');
    assert("publication"@[0] == 'p');
    assert("event-publish"@[1] == 'v');
    assert("external-call"@[1] == 'x');
}

/// The closed gate-reason vocabulary.
#[derive(Clone, Copy, Debug, PartialEq, Eq, Structural)]
pub enum GateReason {
    /// `not-required`
    NotRequired,
    /// `destination-declared`
    DestinationDeclared,
    /// `approval-present`
    ApprovalPresent,
    /// `missing-destination`
    MissingDestination,
    /// `missing-approval`
    MissingApproval,
    /// `destination-forbidden`
    DestinationForbidden,
    /// `unknown-flow`
    UnknownFlow,
    /// `low-confidence`
    LowConfidence,
    /// `sink-ceiling-exceeded`
    SinkCeilingExceeded,
    /// `unclassified-subject`
    UnclassifiedSubject,
    /// `inputs-incomplete`
    InputsIncomplete,
}

impl GateReason {
    /// The wire spelling of each member.
    pub open spec fn spec_text(self) -> Seq<char> {
        match self {
            GateReason::NotRequired => "not-required"@,
            GateReason::DestinationDeclared => "destination-declared"@,
            GateReason::ApprovalPresent => "approval-present"@,
            GateReason::MissingDestination => "missing-destination"@,
            GateReason::MissingApproval => "missing-approval"@,
            GateReason::DestinationForbidden => "destination-forbidden"@,
            GateReason::UnknownFlow => "unknown-flow"@,
            GateReason::LowConfidence => "low-confidence"@,
            GateReason::SinkCeilingExceeded => "sink-ceiling-exceeded"@,
            GateReason::UnclassifiedSubject => "unclassified-subject"@,
            GateReason::InputsIncomplete => "inputs-incomplete"@,
        }
    }

    /// The exact wire spelling.
    pub fn as_str(self) -> (r: &'static str)
        ensures
            r@ == self.spec_text(),
    {
        match self {
            GateReason::NotRequired => "not-required",
            GateReason::DestinationDeclared => "destination-declared",
            GateReason::ApprovalPresent => "approval-present",
            GateReason::MissingDestination => "missing-destination",
            GateReason::MissingApproval => "missing-approval",
            GateReason::DestinationForbidden => "destination-forbidden",
            GateReason::UnknownFlow => "unknown-flow",
            GateReason::LowConfidence => "low-confidence",
            GateReason::SinkCeilingExceeded => "sink-ceiling-exceeded",
            GateReason::UnclassifiedSubject => "unclassified-subject",
            GateReason::InputsIncomplete => "inputs-incomplete",
        }
    }

    /// The member spelled `t`, if any.
    pub open spec fn spec_parse(t: Seq<char>) -> Option<GateReason> {
        if t == "not-required"@ {
            Some(GateReason::NotRequired)
        } else if t == "destination-declared"@ {
            Some(GateReason::DestinationDeclared)
        } else if t == "approval-present"@ {
            Some(GateReason::ApprovalPresent)
        } else if t == "missing-destination"@ {
            Some(GateReason::MissingDestination)
        } else if t == "missing-approval"@ {
            Some(GateReason::MissingApproval)
        } else if t == "destination-forbidden"@ {
            Some(GateReason::DestinationForbidden)
        } else if t == "unknown-flow"@ {
            Some(GateReason::UnknownFlow)
        } else if t == "low-confidence"@ {
            Some(GateReason::LowConfidence)
        } else if t == "sink-ceiling-exceeded"@ {
            Some(GateReason::SinkCeilingExceeded)
        } else if t == "unclassified-subject"@ {
            Some(GateReason::UnclassifiedSubject)
        } else if t == "inputs-incomplete"@ {
            Some(GateReason::InputsIncomplete)
        } else {
            None
        }
    }

    /// Parse the exact wire spelling.
    pub fn parse(text: &str) -> (r: Option<GateReason>)
        ensures
            r == GateReason::spec_parse(text@),
    {
        if str_eq(text, "not-required") {
            Some(GateReason::NotRequired)
        } else if str_eq(text, "destination-declared") {
            Some(GateReason::DestinationDeclared)
        } else if str_eq(text, "approval-present") {
            Some(GateReason::ApprovalPresent)
        } else if str_eq(text, "missing-destination") {
            Some(GateReason::MissingDestination)
        } else if str_eq(text, "missing-approval") {
            Some(GateReason::MissingApproval)
        } else if str_eq(text, "destination-forbidden") {
            Some(GateReason::DestinationForbidden)
        } else if str_eq(text, "unknown-flow") {
            Some(GateReason::UnknownFlow)
        } else if str_eq(text, "low-confidence") {
            Some(GateReason::LowConfidence)
        } else if str_eq(text, "sink-ceiling-exceeded") {
            Some(GateReason::SinkCeilingExceeded)
        } else if str_eq(text, "unclassified-subject") {
            Some(GateReason::UnclassifiedSubject)
        } else if str_eq(text, "inputs-incomplete") {
            Some(GateReason::InputsIncomplete)
        } else {
            None
        }
    }
}

/// Every `GateReason` spelling parses back to its member, and nothing
/// else parses to that member.
pub proof fn lemma_gate_reason_round_trip(x: GateReason, t: Seq<char>)
    ensures
        GateReason::spec_parse(x.spec_text()) == Some(x),
        GateReason::spec_parse(t) == Some(x) ==> t == x.spec_text(),
{
    reveal_strlit("not-required");
    reveal_strlit("destination-declared");
    reveal_strlit("approval-present");
    reveal_strlit("missing-destination");
    reveal_strlit("missing-approval");
    reveal_strlit("destination-forbidden");
    reveal_strlit("unknown-flow");
    reveal_strlit("low-confidence");
    reveal_strlit("sink-ceiling-exceeded");
    reveal_strlit("unclassified-subject");
    reveal_strlit("inputs-incomplete");
    assert("not-required"@.len() == 12);
    assert("destination-declared"@.len() == 20);
    assert("approval-present"@.len() == 16);
    assert("missing-destination"@.len() == 19);
    assert("missing-approval"@.len() == 16);
    assert("destination-forbidden"@.len() == 21);
    assert("unknown-flow"@.len() == 12);
    assert("low-confidence"@.len() == 14);
    assert("sink-ceiling-exceeded"@.len() == 21);
    assert("unclassified-subject"@.len() == 20);
    assert("inputs-incomplete"@.len() == 17);
    assert("not-required"@[0] == 'n');
    assert("unknown-flow"@[0] == 'u');
    assert("destination-declared"@[0] == 'd');
    assert("unclassified-subject"@[0] == 'u');
    assert("approval-present"@[0] == 'a');
    assert("missing-approval"@[0] == 'm');
    assert("destination-forbidden"@[0] == 'd');
    assert("sink-ceiling-exceeded"@[0] == 's');
}

/// The closed finding-severity vocabulary.
#[derive(Clone, Copy, Debug, PartialEq, Eq, Structural)]
pub enum Severity {
    /// `error`
    Error,
    /// `warning`
    Warning,
}

impl Severity {
    /// The wire spelling of each member.
    pub open spec fn spec_text(self) -> Seq<char> {
        match self {
            Severity::Error => "error"@,
            Severity::Warning => "warning"@,
        }
    }

    /// The exact wire spelling.
    pub fn as_str(self) -> (r: &'static str)
        ensures
            r@ == self.spec_text(),
    {
        match self {
            Severity::Error => "error",
            Severity::Warning => "warning",
        }
    }

    /// The member spelled `t`, if any.
    pub open spec fn spec_parse(t: Seq<char>) -> Option<Severity> {
        if t == "error"@ {
            Some(Severity::Error)
        } else if t == "warning"@ {
            Some(Severity::Warning)
        } else {
            None
        }
    }

    /// Parse the exact wire spelling.
    pub fn parse(text: &str) -> (r: Option<Severity>)
        ensures
            r == Severity::spec_parse(text@),
    {
        if str_eq(text, "error") {
            Some(Severity::Error)
        } else if str_eq(text, "warning") {
            Some(Severity::Warning)
        } else {
            None
        }
    }

    /// Whether the severity blocks the verdict.
    pub fn is_error(self) -> (r: bool)
        ensures
            r == (self is Error),
    {
        match self {
            Severity::Error => true,
            Severity::Warning => false,
        }
    }
}

/// Every `Severity` spelling parses back to its member, and nothing
/// else parses to that member.
pub proof fn lemma_severity_round_trip(x: Severity, t: Seq<char>)
    ensures
        Severity::spec_parse(x.spec_text()) == Some(x),
        Severity::spec_parse(t) == Some(x) ==> t == x.spec_text(),
{
    reveal_strlit("error");
    reveal_strlit("warning");
    assert("error"@.len() == 5);
    assert("warning"@.len() == 7);
}

/// The closed unknown-reason vocabulary.
#[derive(Clone, Copy, Debug, PartialEq, Eq, Structural)]
pub enum UnknownReason {
    /// `dynamic-hop`
    DynamicHop,
    /// `foreign-implementation`
    ForeignImplementation,
    /// `observed-incomplete`
    ObservedIncomplete,
    /// `unresolved-subject`
    UnresolvedSubject,
    /// `partial-adapter-outcome`
    PartialAdapterOutcome,
}

impl UnknownReason {
    /// The wire spelling of each member.
    pub open spec fn spec_text(self) -> Seq<char> {
        match self {
            UnknownReason::DynamicHop => "dynamic-hop"@,
            UnknownReason::ForeignImplementation => "foreign-implementation"@,
            UnknownReason::ObservedIncomplete => "observed-incomplete"@,
            UnknownReason::UnresolvedSubject => "unresolved-subject"@,
            UnknownReason::PartialAdapterOutcome => "partial-adapter-outcome"@,
        }
    }

    /// The exact wire spelling.
    pub fn as_str(self) -> (r: &'static str)
        ensures
            r@ == self.spec_text(),
    {
        match self {
            UnknownReason::DynamicHop => "dynamic-hop",
            UnknownReason::ForeignImplementation => "foreign-implementation",
            UnknownReason::ObservedIncomplete => "observed-incomplete",
            UnknownReason::UnresolvedSubject => "unresolved-subject",
            UnknownReason::PartialAdapterOutcome => "partial-adapter-outcome",
        }
    }

    /// The member spelled `t`, if any.
    pub open spec fn spec_parse(t: Seq<char>) -> Option<UnknownReason> {
        if t == "dynamic-hop"@ {
            Some(UnknownReason::DynamicHop)
        } else if t == "foreign-implementation"@ {
            Some(UnknownReason::ForeignImplementation)
        } else if t == "observed-incomplete"@ {
            Some(UnknownReason::ObservedIncomplete)
        } else if t == "unresolved-subject"@ {
            Some(UnknownReason::UnresolvedSubject)
        } else if t == "partial-adapter-outcome"@ {
            Some(UnknownReason::PartialAdapterOutcome)
        } else {
            None
        }
    }

    /// Parse the exact wire spelling.
    pub fn parse(text: &str) -> (r: Option<UnknownReason>)
        ensures
            r == UnknownReason::spec_parse(text@),
    {
        if str_eq(text, "dynamic-hop") {
            Some(UnknownReason::DynamicHop)
        } else if str_eq(text, "foreign-implementation") {
            Some(UnknownReason::ForeignImplementation)
        } else if str_eq(text, "observed-incomplete") {
            Some(UnknownReason::ObservedIncomplete)
        } else if str_eq(text, "unresolved-subject") {
            Some(UnknownReason::UnresolvedSubject)
        } else if str_eq(text, "partial-adapter-outcome") {
            Some(UnknownReason::PartialAdapterOutcome)
        } else {
            None
        }
    }
}

/// Every `UnknownReason` spelling parses back to its member, and nothing
/// else parses to that member.
pub proof fn lemma_unknown_reason_round_trip(x: UnknownReason, t: Seq<char>)
    ensures
        UnknownReason::spec_parse(x.spec_text()) == Some(x),
        UnknownReason::spec_parse(t) == Some(x) ==> t == x.spec_text(),
{
    reveal_strlit("dynamic-hop");
    reveal_strlit("foreign-implementation");
    reveal_strlit("observed-incomplete");
    reveal_strlit("unresolved-subject");
    reveal_strlit("partial-adapter-outcome");
    assert("dynamic-hop"@.len() == 11);
    assert("foreign-implementation"@.len() == 22);
    assert("observed-incomplete"@.len() == 19);
    assert("unresolved-subject"@.len() == 18);
    assert("partial-adapter-outcome"@.len() == 23);
}

/// The contract-level content of a gate block.
pub struct GateView {
    pub required: bool,
    pub satisfied: bool,
    pub reason: GateReason,
}

/// The closed gate-state block of one flow.
#[derive(Clone, Copy, Debug, PartialEq, Eq)]
pub struct Gate {
    required: bool,
    satisfied: bool,
    reason: GateReason,
}

impl View for Gate {
    type V = GateView;

    closed spec fn view(&self) -> GateView {
        GateView { required: self.required, satisfied: self.satisfied, reason: self.reason }
    }
}

/// The gating block a wire object declares, or why it is refused.
pub open spec fn gate_of_wire(v: JsonValue) -> Result<GateView, VocabularyError> {
    if !is_object(v) {
        Err(VocabularyError::Shape)
    } else if bool_of(member(v, "required"@)) is None || bool_of(member(v, "satisfied"@)) is None {
        Err(VocabularyError::Shape)
    } else if text_member(v, "reason"@) is None || GateReason::spec_parse(text_member(v, "reason"@).unwrap()) is None {
        Err(VocabularyError::Shape)
    } else {
        Ok(GateView {
            required: bool_of(member(v, "required"@)).unwrap(),
            satisfied: bool_of(member(v, "satisfied"@)).unwrap(),
            reason: GateReason::spec_parse(text_member(v, "reason"@).unwrap()).unwrap(),
        })
    }
}

/// The canonical wire object of a gate block: exactly its three
/// members.
pub open spec fn gate_wire(v: JsonValue, g: GateView) -> bool {
    &&& is_object(v)
    &&& member_count(v) == 3
    &&& member(v, "required"@) == Some(JsonValue::Bool(g.required))
    &&& member(v, "satisfied"@) == Some(JsonValue::Bool(g.satisfied))
    &&& text_member(v, "reason"@) == Some(g.reason.spec_text())
}

impl Gate {
    /// A gate block of the given state.
    pub(crate) fn new(required: bool, satisfied: bool, reason: GateReason) -> (r: Gate)
        ensures
            r@ == (GateView { required, satisfied, reason }),
    {
        Gate { required, satisfied, reason }
    }

    /// Whether a gate decision was required at all.
    pub fn required(&self) -> (r: bool)
        ensures
            r == self@.required,
    {
        self.required
    }

    /// Whether this gating block was satisfied.
    pub fn satisfied(&self) -> (r: bool)
        ensures
            r == self@.satisfied,
    {
        self.satisfied
    }

    /// The closed reason for this gating state.
    pub fn reason(&self) -> (r: GateReason)
        ensures
            r == self@.reason,
    {
        self.reason
    }

    /// The canonical wire form.
    pub fn to_wire(&self) -> (r: JsonValue)
        ensures
            gate_wire(r, self@),
    {
        let fields: Vec<(String, JsonValue)> = vec![
            ("reason".to_owned(), JsonValue::Text(self.reason.as_str().to_owned())),
            ("required".to_owned(), JsonValue::Bool(self.required)),
            ("satisfied".to_owned(), JsonValue::Bool(self.satisfied)),
        ];
        proof {
            reveal_strlit("reason");
            reveal_strlit("required");
            reveal_strlit("satisfied");
            assert("reason"@[2] != "required"@[2]);
            assert("reason"@.len() != "satisfied"@.len());
            assert("required"@[0] != "satisfied"@[0]);
            crate::json::lemma_lookup_at(fields@, 0);
            crate::json::lemma_lookup_at(fields@, 1);
            crate::json::lemma_lookup_at(fields@, 2);
        }
        JsonValue::Object(fields)
    }

    /// Parse the wire form.
    pub fn from_wire(v: &JsonValue) -> (r: Result<Gate, VocabularyError>)
        ensures
            match gate_of_wire(*v) {
                Ok(g) => r matches Ok(x) && x@ == g,
                Err(e) => r == Err::<Gate, VocabularyError>(e),
            },
    {
        match v {
            JsonValue::Object(_) => {},
            _ => return Err(VocabularyError::Shape),
        }
        let required = match get_bool(v, "required") {
            Some(b) => b,
            None => return Err(VocabularyError::Shape),
        };
        let satisfied = match get_bool(v, "satisfied") {
            Some(b) => b,
            None => return Err(VocabularyError::Shape),
        };
        let reason = match get_text(v, "reason") {
            Some(t) => match GateReason::parse(t) {
                Some(x) => x,
                None => return Err(VocabularyError::Shape),
            },
            None => return Err(VocabularyError::Shape),
        };
        Ok(Gate { required, satisfied, reason })
    }
}

/// A gate block survives its canonical wire form.
pub proof fn lemma_gate_round_trip(v: JsonValue, g: GateView)
    requires
        gate_wire(v, g),
    ensures
        gate_of_wire(v) == Ok::<GateView, VocabularyError>(g),
{
    lemma_gate_reason_round_trip(g.reason, g.reason.spec_text());
}

/// The texts of a list of owned strings.
pub open spec fn string_views(s: Seq<String>) -> Seq<Seq<char>> {
    s.map_values(|t: String| t@)
}

/// The hop texts a wire path declares, or why it is refused: every hop
/// is a text of 1 to 192 bytes.
pub open spec fn hops_of_wire(items: Seq<JsonValue>) -> Result<Seq<Seq<char>>, VocabularyError>
    decreases items.len(),
{
    if items.len() == 0 {
        Ok(Seq::empty())
    } else if text_of(Some(items[0])) is None {
        Err(VocabularyError::Shape)
    } else if byte_len(text_of(Some(items[0])).unwrap()) == 0 || byte_len(text_of(Some(items[0])).unwrap()) > 192 {
        Err(VocabularyError::Length)
    } else {
        match hops_of_wire(items.drop_first()) {
            Ok(rest) => Ok(seq![text_of(Some(items[0])).unwrap()] + rest),
            Err(e) => Err(e),
        }
    }
}

proof fn lemma_hops_step(items: Seq<JsonValue>, i: int)
    requires
        0 <= i < items.len(),
    ensures
        items.subrange(i, items.len() as int).drop_first() == items.subrange(i + 1, items.len() as int),
        items.subrange(i, items.len() as int)[0] == items[i],
{
    assert(items.subrange(i, items.len() as int).drop_first() =~= items.subrange(i + 1, items.len() as int));
}

fn hops_from_wire(items: &Vec<JsonValue>) -> (r: Result<Vec<String>, VocabularyError>)
    ensures
        match hops_of_wire(items@) {
            Ok(p) => r matches Ok(x) && string_views(x@) == p,
            Err(e) => r == Err::<Vec<String>, VocabularyError>(e),
        },
{
    let mut out: Vec<String> = Vec::new();
    let mut i: usize = 0;
    let n = items.len();
    assert(items@.subrange(0, n as int) =~= items@);
    while i < n
        invariant
            n == items@.len(),
            i <= n,
            out@.len() == i,
            hops_of_wire(items@) == match hops_of_wire(items@.subrange(i as int, n as int)) {
                Ok(rest) => Ok(string_views(out@) + rest),
                Err(e) => Err(e),
            },
        decreases n - i,
    {
        proof { lemma_hops_step(items@, i as int); }
        let t = match as_text(&items[i]) {
            Some(t) => t,
            None => return Err(VocabularyError::Shape),
        };
        let len = t.as_bytes().len();
        if len == 0 || len > 192 {
            return Err(VocabularyError::Length);
        }
        let ghost before = out@;
        out.push(t.to_owned());
        proof {
            assert(string_views(out@) =~= string_views(before) + seq![t@]);
            match hops_of_wire(items@.subrange(i + 1, n as int)) {
                Ok(rest) => {
                    assert(string_views(out@) + rest =~= string_views(before) + (seq![t@] + rest));
                },
                Err(e) => {},
            }
        }
        i = i + 1;
    }
    proof {
        assert(items@.subrange(n as int, n as int) =~= Seq::<JsonValue>::empty());
        assert(string_views(out@) + Seq::<Seq<char>>::empty() =~= string_views(out@));
    }
    Ok(out)
}

/// The contract-level content of a flow.
pub struct FlowView {
    pub id: Seq<char>,
    pub source: Seq<char>,
    pub path: Seq<Seq<char>>,
    pub sink: Seq<char>,
    pub sink_kind: SinkKind,
    pub provenance: Provenance,
    pub confidence: Confidence,
    pub tenant_relation: TenantRelation,
    pub classification: DataKind,
    pub gate: Option<GateView>,
}

/// One flow: source subject, ordered path, sink, and the resolved
/// classification with its gate decision.
#[derive(Debug)]
pub struct Flow {
    id: String,
    source: SubjectPath,
    path: Vec<String>,
    sink: String,
    sink_kind: SinkKind,
    provenance: Provenance,
    confidence: Confidence,
    tenant_relation: TenantRelation,
    classification: DataKind,
    gate: Option<Gate>,
}

impl View for Flow {
    type V = FlowView;

    closed spec fn view(&self) -> FlowView {
        FlowView {
            id: self.id@,
            source: self.source@,
            path: string_views(self.path@),
            sink: self.sink@,
            sink_kind: self.sink_kind,
            provenance: self.provenance,
            confidence: self.confidence,
            tenant_relation: self.tenant_relation,
            classification: self.classification,
            gate: match self.gate { Some(g) => Some(g@), None => None },
        }
    }
}

/// The flow a wire object declares, or why it is refused.
pub open spec fn flow_of_wire(v: JsonValue) -> Result<FlowView, VocabularyError> {
    let id = text_member(v, "id"@);
    let source = text_member(v, "source"@);
    let path = array_of(member(v, "path"@));
    let sink = text_member(v, "sink"@);
    let sink_kind = text_member(v, "sinkKind"@);
    let provenance = text_member(v, "provenance"@);
    let confidence = text_member(v, "confidence"@);
    let tenant = text_member(v, "tenantRelation"@);
    let kind = text_member(v, "classification"@);
    let gate = member(v, "gate"@);
    if !is_object(v) || id is None {
        Err(VocabularyError::Shape)
    } else if byte_len(id.unwrap()) == 0 || byte_len(id.unwrap()) > 64 {
        Err(VocabularyError::Length)
    } else if source is None || subject_error(source.unwrap()) is Some || path is None {
        Err(VocabularyError::Shape)
    } else if path.unwrap().len() > 64 {
        Err(VocabularyError::Length)
    } else if hops_of_wire(path.unwrap()) is Err {
        Err(hops_of_wire(path.unwrap())->Err_0)
    } else if sink is None {
        Err(VocabularyError::Shape)
    } else if byte_len(sink.unwrap()) == 0 || byte_len(sink.unwrap()) > 192 {
        Err(VocabularyError::Length)
    } else if sink_kind is None || SinkKind::spec_parse(sink_kind.unwrap()) is None
        || provenance is None || Provenance::spec_parse(provenance.unwrap()) is None
        || confidence is None || Confidence::spec_parse(confidence.unwrap()) is None
        || tenant is None || TenantRelation::spec_parse(tenant.unwrap()) is None
        || kind is None || DataKind::spec_parse(kind.unwrap()) is None {
        Err(VocabularyError::Shape)
    } else if gate is Some && gate_of_wire(gate.unwrap()) is Err {
        Err(gate_of_wire(gate.unwrap())->Err_0)
    } else {
        Ok(FlowView {
            id: id.unwrap(),
            source: source.unwrap(),
            path: hops_of_wire(path.unwrap())->Ok_0,
            sink: sink.unwrap(),
            sink_kind: SinkKind::spec_parse(sink_kind.unwrap()).unwrap(),
            provenance: Provenance::spec_parse(provenance.unwrap()).unwrap(),
            confidence: Confidence::spec_parse(confidence.unwrap()).unwrap(),
            tenant_relation: TenantRelation::spec_parse(tenant.unwrap()).unwrap(),
            classification: DataKind::spec_parse(kind.unwrap()).unwrap(),
            gate: match gate {
                Some(g) => Some(gate_of_wire(g)->Ok_0),
                None => None,
            },
        })
    }
}

/// The canonical wire object of a flow: exactly its members, its gating block
/// only when there is one.
pub open spec fn flow_wire(v: JsonValue, f: FlowView) -> bool {
    &&& is_object(v)
    &&& member_count(v) == if f.gate is Some { 10nat } else { 9nat }
    &&& text_member(v, "id"@) == Some(f.id)
    &&& text_member(v, "source"@) == Some(f.source)
    &&& array_of(member(v, "path"@)) is Some
    &&& texts_of(array_of(member(v, "path"@)).unwrap(), f.path)
    &&& text_member(v, "sink"@) == Some(f.sink)
    &&& text_member(v, "sinkKind"@) == Some(f.sink_kind.spec_text())
    &&& text_member(v, "provenance"@) == Some(f.provenance.spec_text())
    &&& text_member(v, "confidence"@) == Some(f.confidence.spec_text())
    &&& text_member(v, "tenantRelation"@) == Some(f.tenant_relation.spec_text())
    &&& text_member(v, "classification"@) == Some(f.classification.spec_text())
    &&& match f.gate {
        Some(g) => member(v, "gate"@) is Some && gate_wire(member(v, "gate"@).unwrap(), g),
        None => member(v, "gate"@) is None,
    }
}

/// The bounds a flow keeps so that its wire form reads back.
pub open spec fn flow_valid(f: FlowView) -> bool {
    &&& 1 <= byte_len(f.id) <= 64
    &&& subject_error(f.source) is None
    &&& f.path.len() <= 64
    &&& forall|i: int| 0 <= i < f.path.len() ==> 1 <= #[trigger] byte_len(f.path[i]) <= 192
    &&& 1 <= byte_len(f.sink) <= 192
}

proof fn lemma_flow_keys()
    ensures
        "id"@.len() == 2, "id"@[0] == 'i',
        "source"@.len() == 6, "source"@[0] == 's',
        "path"@.len() == 4, "path"@[0] == 'p',
        "sink"@.len() == 4, "sink"@[0] == 's',
        "sinkKind"@.len() == 8, "sinkKind"@[0] == 's',
        "provenance"@.len() == 10, "provenance"@[0] == 'p',
        "confidence"@.len() == 10, "confidence"@[0] == 'c',
        "tenantRelation"@.len() == 14, "tenantRelation"@[0] == 't',
        "classification"@.len() == 14, "classification"@[0] == 'c',
        "gate"@.len() == 4, "gate"@[0] == 'g',
{
    reveal_strlit("id");
    reveal_strlit("source");
    reveal_strlit("path");
    reveal_strlit("sink");
    reveal_strlit("sinkKind");
    reveal_strlit("provenance");
    reveal_strlit("confidence");
    reveal_strlit("tenantRelation");
    reveal_strlit("classification");
    reveal_strlit("gate");
}

impl Flow {
    /// A flow of the given parts.
    pub(crate) fn new(
        id: String,
        source: SubjectPath,
        path: Vec<String>,
        sink: String,
        sink_kind: SinkKind,
        provenance: Provenance,
        confidence: Confidence,
        tenant_relation: TenantRelation,
        classification: DataKind,
        gate: Option<Gate>,
    ) -> (r: Flow)
        ensures
            r@ == (FlowView {
                id: id@,
                source: source@,
                path: string_views(path@),
                sink: sink@,
                sink_kind,
                provenance,
                confidence,
                tenant_relation,
                classification,
                gate: match gate { Some(g) => Some(g@), None => None },
            }),
    {
        Flow { id, source, path, sink, sink_kind, provenance, confidence, tenant_relation, classification, gate }
    }

    /// The flow id.
    pub fn id(&self) -> (r: &str)
        ensures
            r@ == self@.id,
    {
        self.id.as_str()
    }

    /// The source subject.
    pub fn source(&self) -> (r: &SubjectPath)
        ensures
            r@ == self@.source,
    {
        &self.source
    }

    /// The ordered opaque edge references.
    pub fn path(&self) -> (r: &[String])
        ensures
            string_views(r@) == self@.path,
    {
        self.path.as_slice()
    }

    /// The sink symbol or bounded sink token.
    pub fn sink(&self) -> (r: &str)
        ensures
            r@ == self@.sink,
    {
        self.sink.as_str()
    }

    /// The closed sink kind.
    pub fn sink_kind(&self) -> (r: SinkKind)
        ensures
            r == self@.sink_kind,
    {
        self.sink_kind
    }

    /// The flow provenance.
    pub fn provenance(&self) -> (r: Provenance)
        ensures
            r == self@.provenance,
    {
        self.provenance
    }

    /// The flow confidence.
    pub fn confidence(&self) -> (r: Confidence)
        ensures
            r == self@.confidence,
    {
        self.confidence
    }

    /// The tenant relation.
    pub fn tenant_relation(&self) -> (r: TenantRelation)
        ensures
            r == self@.tenant_relation,
    {
        self.tenant_relation
    }

    /// The resolved classification of the source subject.
    pub fn classification(&self) -> (r: DataKind)
        ensures
            r == self@.classification,
    {
        self.classification
    }

    /// The gating decision, when there is one.
    pub fn gate(&self) -> (r: Option<&Gate>)
        ensures
            match r {
                Some(g) => self@.gate == Some(g@),
                None => self@.gate is None,
            },
    {
        self.gate.as_ref()
    }

    /// The canonical wire form.
    pub fn to_wire(&self) -> (r: JsonValue)
        ensures
            flow_wire(r, self@),
    {
        let path = crate::json::text_array(&self.path);
        let mut fields: Vec<(String, JsonValue)> = vec![
            ("classification".to_owned(), JsonValue::Text(self.classification.as_str().to_owned())),
            ("confidence".to_owned(), JsonValue::Text(self.confidence.as_str().to_owned())),
            ("id".to_owned(), JsonValue::Text(self.id.clone())),
            ("path".to_owned(), path),
            ("provenance".to_owned(), JsonValue::Text(self.provenance.as_str().to_owned())),
            ("sink".to_owned(), JsonValue::Text(self.sink.clone())),
            ("sinkKind".to_owned(), JsonValue::Text(self.sink_kind.as_str().to_owned())),
            ("source".to_owned(), JsonValue::Text(self.source.as_str().to_owned())),
            ("tenantRelation".to_owned(), JsonValue::Text(self.tenant_relation.as_str().to_owned())),
        ];
        let ghost base = fields@;
        proof {
            lemma_flow_keys();
            assert forall|i: int| 0 <= i < 9 implies crate::json::lookup(base, #[trigger] base[i].0@) == Some(base[i].1) by {
                crate::json::lemma_lookup_at(base, i);
            }
            crate::json::lemma_lookup_absent(base, "gate"@);
            assert(self.path@.map_values(|t: String| t@) == string_views(self.path@));
        }
        match &self.gate {
            Some(g) => {
                let w = g.to_wire();
                fields.push(("gate".to_owned(), w));
                proof {
                    assert forall|i: int| 0 <= i < 9 implies crate::json::lookup(fields@, #[trigger] base[i].0@) == Some(base[i].1) by {
                        crate::json::lemma_lookup_push(base, fields@.last(), base[i].0@);
                        assert(fields@ == base.push(fields@.last()));
                    }
                    crate::json::lemma_lookup_push(base, fields@.last(), "gate"@);
                    assert(fields@ == base.push(fields@.last()));
                    assert(base[0].0@ == "classification"@);
                    assert(base[1].0@ == "confidence"@);
                    assert(base[2].0@ == "id"@);
                    assert(base[3].0@ == "path"@);
                    assert(base[4].0@ == "provenance"@);
                    assert(base[5].0@ == "sink"@);
                    assert(base[6].0@ == "sinkKind"@);
                    assert(base[7].0@ == "source"@);
                    assert(base[8].0@ == "tenantRelation"@);
                }
            },
            None => {
                proof {
                    assert(base[0].0@ == "classification"@);
                    assert(base[1].0@ == "confidence"@);
                    assert(base[2].0@ == "id"@);
                    assert(base[3].0@ == "path"@);
                    assert(base[4].0@ == "provenance"@);
                    assert(base[5].0@ == "sink"@);
                    assert(base[6].0@ == "sinkKind"@);
                    assert(base[7].0@ == "source"@);
                    assert(base[8].0@ == "tenantRelation"@);
                }
            },
        }
        JsonValue::Object(fields)
    }

    /// Parse the wire form (row-level validation).
    pub fn from_wire(v: &JsonValue) -> (r: Result<Flow, VocabularyError>)
        ensures
            match flow_of_wire(*v) {
                Ok(f) => r matches Ok(x) && x@ == f,
                Err(e) => r matches Err(x) && x == e,
            },
    {
        match v {
            JsonValue::Object(_) => {},
            _ => return Err(VocabularyError::Shape),
        }
        let id = match get_text(v, "id") {
            Some(t) => t,
            None => return Err(VocabularyError::Shape),
        };
        let id_len = id.as_bytes().len();
        if id_len == 0 || id_len > 64 {
            return Err(VocabularyError::Length);
        }
        let source = match get_text(v, "source") {
            Some(t) => match SubjectPath::parse(t) {
                Ok(s) => s,
                Err(_) => return Err(VocabularyError::Shape),
            },
            None => return Err(VocabularyError::Shape),
        };
        let items = match get_array(v, "path") {
            Some(items) => items,
            None => return Err(VocabularyError::Shape),
        };
        if items.len() > 64 {
            return Err(VocabularyError::Length);
        }
        let path = hops_from_wire(items)?;
        let sink = match get_text(v, "sink") {
            Some(t) => t,
            None => return Err(VocabularyError::Shape),
        };
        let sink_len = sink.as_bytes().len();
        if sink_len == 0 || sink_len > 192 {
            return Err(VocabularyError::Length);
        }
        let sink_kind = match get_text(v, "sinkKind") {
            Some(t) => match SinkKind::parse(t) { Some(x) => x, None => return Err(VocabularyError::Shape) },
            None => return Err(VocabularyError::Shape),
        };
        let provenance = match get_text(v, "provenance") {
            Some(t) => match Provenance::parse(t) { Some(x) => x, None => return Err(VocabularyError::Shape) },
            None => return Err(VocabularyError::Shape),
        };
        let confidence = match get_text(v, "confidence") {
            Some(t) => match Confidence::parse(t) { Some(x) => x, None => return Err(VocabularyError::Shape) },
            None => return Err(VocabularyError::Shape),
        };
        let tenant_relation = match get_text(v, "tenantRelation") {
            Some(t) => match TenantRelation::parse(t) { Some(x) => x, None => return Err(VocabularyError::Shape) },
            None => return Err(VocabularyError::Shape),
        };
        let classification = match get_text(v, "classification") {
            Some(t) => match DataKind::parse(t) { Some(x) => x, None => return Err(VocabularyError::Shape) },
            None => return Err(VocabularyError::Shape),
        };
        let gate = match get(v, "gate") {
            None => None,
            Some(g) => Some(Gate::from_wire(g)?),
        };
        Ok(Flow {
            id: id.to_owned(),
            source,
            path,
            sink: sink.to_owned(),
            sink_kind,
            provenance,
            confidence,
            tenant_relation,
            classification,
            gate,
        })
    }
}

proof fn lemma_hops_round_trip(items: Seq<JsonValue>, path: Seq<Seq<char>>)
    requires
        texts_of(items, path),
        forall|i: int| 0 <= i < path.len() ==> 1 <= #[trigger] byte_len(path[i]) <= 192,
    ensures
        hops_of_wire(items) == Ok::<Seq<Seq<char>>, VocabularyError>(path),
    decreases items.len(),
{
    if items.len() > 0 {
        assert(text_of(Some(items[0])) == Some(path[0]));
        let rest = path.drop_first();
        assert forall|i: int| 0 <= i < rest.len() implies 1 <= #[trigger] byte_len(rest[i]) <= 192 by {
            assert(rest[i] == path[i + 1]);
        }
        assert forall|i: int| 0 <= i < items.drop_first().len() implies text_of(Some(#[trigger] items.drop_first()[i])) == Some(rest[i]) by {
            assert(items.drop_first()[i] == items[i + 1]);
        }
        lemma_hops_round_trip(items.drop_first(), rest);
        assert(seq![path[0]] + rest =~= path);
    } else {
        assert(path =~= Seq::<Seq<char>>::empty());
    }
}

/// A valid flow survives its canonical wire form.
pub proof fn lemma_flow_round_trip(v: JsonValue, f: FlowView)
    requires
        flow_wire(v, f),
        flow_valid(f),
    ensures
        flow_of_wire(v) == Ok::<FlowView, VocabularyError>(f),
{
    lemma_hops_round_trip(array_of(member(v, "path"@)).unwrap(), f.path);
    lemma_sink_kind_round_trip(f.sink_kind, f.sink_kind.spec_text());
    lemma_provenance_round_trip(f.provenance, f.provenance.spec_text());
    lemma_confidence_round_trip(f.confidence, f.confidence.spec_text());
    lemma_tenant_relation_round_trip(f.tenant_relation, f.tenant_relation.spec_text());
    crate::classification::types::lemma_data_kind_round_trip(f.classification, f.classification.spec_text());
    if let Some(g) = f.gate {
        lemma_gate_round_trip(member(v, "gate"@).unwrap(), g);
    }
}

/// The contract-level content of a finding.
pub struct FindingView {
    pub rule_id: Seq<char>,
    pub severity: Severity,
    pub subject: Seq<char>,
    pub detail: Seq<char>,
}

/// One finding: a registered `classification.*` or `dataflow.*` rule
/// violation against one subject, with a fixed bounded detail token.
#[derive(Debug)]
pub struct Finding {
    rule_id: String,
    severity: Severity,
    subject: String,
    detail: String,
}

impl View for Finding {
    type V = FindingView;

    closed spec fn view(&self) -> FindingView {
        FindingView { rule_id: self.rule_id@, severity: self.severity, subject: self.subject@, detail: self.detail@ }
    }
}

impl Clone for Finding {
    fn clone(&self) -> (r: Finding)
        ensures
            r@ == self@,
    {
        Finding {
            rule_id: self.rule_id.clone(),
            severity: self.severity,
            subject: self.subject.clone(),
            detail: self.detail.clone(),
        }
    }
}

/// The finding a wire object declares, or why it is refused.
pub open spec fn finding_of_wire(v: JsonValue) -> Result<FindingView, VocabularyError> {
    let rule = text_member(v, "ruleId"@);
    let severity = text_member(v, "severity"@);
    let subject = text_member(v, "subject"@);
    let detail = text_member(v, "detail"@);
    if !is_object(v) || rule is None {
        Err(VocabularyError::Shape)
    } else if !has_prefix(rule.unwrap(), "classification."@) && !has_prefix(rule.unwrap(), "dataflow."@) {
        Err(VocabularyError::Shape)
    } else if byte_len(rule.unwrap()) > 64 {
        Err(VocabularyError::Length)
    } else if severity is None || Severity::spec_parse(severity.unwrap()) is None || subject is None {
        Err(VocabularyError::Shape)
    } else if byte_len(subject.unwrap()) == 0 || byte_len(subject.unwrap()) > 324 {
        Err(VocabularyError::Length)
    } else if detail is None || byte_len(detail.unwrap()) == 0 || byte_len(detail.unwrap()) > 64
        || !is_lower(detail.unwrap()[0]) {
        Err(VocabularyError::Shape)
    } else {
        Ok(FindingView {
            rule_id: rule.unwrap(),
            severity: Severity::spec_parse(severity.unwrap()).unwrap(),
            subject: subject.unwrap(),
            detail: detail.unwrap(),
        })
    }
}

/// The canonical wire object of a finding: exactly its four members.
pub open spec fn finding_wire(v: JsonValue, f: FindingView) -> bool {
    &&& is_object(v)
    &&& member_count(v) == 4
    &&& text_member(v, "ruleId"@) == Some(f.rule_id)
    &&& text_member(v, "severity"@) == Some(f.severity.spec_text())
    &&& text_member(v, "subject"@) == Some(f.subject)
    &&& text_member(v, "detail"@) == Some(f.detail)
}

/// The bounds a finding keeps so that its wire form reads back.
pub open spec fn finding_valid(f: FindingView) -> bool {
    &&& has_prefix(f.rule_id, "classification."@) || has_prefix(f.rule_id, "dataflow."@)
    &&& byte_len(f.rule_id) <= 64
    &&& 1 <= byte_len(f.subject) <= 324
    &&& 1 <= byte_len(f.detail) <= 64
    &&& f.detail.len() > 0 && is_lower(f.detail[0])
}

impl Finding {
    /// A finding of the given parts.
    pub(crate) fn new(rule_id: &str, severity: Severity, subject: &str, detail: &str) -> (r: Finding)
        ensures
            r@ == (FindingView { rule_id: rule_id@, severity, subject: subject@, detail: detail@ }),
    {
        Finding { rule_id: rule_id.to_owned(), severity, subject: subject.to_owned(), detail: detail.to_owned() }
    }

    /// The registered rule id.
    pub fn rule_id(&self) -> (r: &str)
        ensures
            r@ == self@.rule_id,
    {
        self.rule_id.as_str()
    }

    /// The finding severity.
    pub fn severity(&self) -> (r: Severity)
        ensures
            r == self@.severity,
    {
        self.severity
    }

    /// The subject reference.
    pub fn subject(&self) -> (r: &str)
        ensures
            r@ == self@.subject,
    {
        self.subject.as_str()
    }

    /// The fixed detail token.
    pub fn detail(&self) -> (r: &str)
        ensures
            r@ == self@.detail,
    {
        self.detail.as_str()
    }

    /// The canonical wire form.
    pub fn to_wire(&self) -> (r: JsonValue)
        ensures
            finding_wire(r, self@),
    {
        let fields: Vec<(String, JsonValue)> = vec![
            ("detail".to_owned(), JsonValue::Text(self.detail.clone())),
            ("ruleId".to_owned(), JsonValue::Text(self.rule_id.clone())),
            ("severity".to_owned(), JsonValue::Text(self.severity.as_str().to_owned())),
            ("subject".to_owned(), JsonValue::Text(self.subject.clone())),
        ];
        proof {
            reveal_strlit("detail");
            reveal_strlit("ruleId");
            reveal_strlit("severity");
            reveal_strlit("subject");
            assert("detail"@[0] != "ruleId"@[0]);
            assert("severity"@.len() != "subject"@.len());
            assert("severity"@.len() != "detail"@.len());
            assert("subject"@.len() != "detail"@.len());
            assert("severity"@.len() != "ruleId"@.len());
            assert("subject"@.len() != "ruleId"@.len());
            crate::json::lemma_lookup_at(fields@, 0);
            crate::json::lemma_lookup_at(fields@, 1);
            crate::json::lemma_lookup_at(fields@, 2);
            crate::json::lemma_lookup_at(fields@, 3);
        }
        JsonValue::Object(fields)
    }

    /// Parse the wire form (row-level validation).
    pub fn from_wire(v: &JsonValue) -> (r: Result<Finding, VocabularyError>)
        ensures
            match finding_of_wire(*v) {
                Ok(f) => r matches Ok(x) && x@ == f,
                Err(e) => r matches Err(x) && x == e,
            },
    {
        match v {
            JsonValue::Object(_) => {},
            _ => return Err(VocabularyError::Shape),
        }
        let rule = match get_text(v, "ruleId") {
            Some(t) => t,
            None => return Err(VocabularyError::Shape),
        };
        if !str_starts_with(rule, "classification.") && !str_starts_with(rule, "dataflow.") {
            return Err(VocabularyError::Shape);
        }
        if rule.as_bytes().len() > 64 {
            return Err(VocabularyError::Length);
        }
        let severity = match get_text(v, "severity") {
            Some(t) => match Severity::parse(t) { Some(x) => x, None => return Err(VocabularyError::Shape) },
            None => return Err(VocabularyError::Shape),
        };
        let subject = match get_text(v, "subject") {
            Some(t) => t,
            None => return Err(VocabularyError::Shape),
        };
        let subject_len = subject.as_bytes().len();
        if subject_len == 0 || subject_len > 324 {
            return Err(VocabularyError::Length);
        }
        let detail = match get_text(v, "detail") {
            Some(t) => t,
            None => return Err(VocabularyError::Shape),
        };
        let detail_len = detail.as_bytes().len();
        if detail_len == 0 || detail_len > 64 {
            return Err(VocabularyError::Shape);
        }
        proof {
            if detail@.len() == 0 {
                assert(vstd::utf8::encode_utf8(detail@) =~= Seq::<u8>::empty()) by {
                    reveal(vstd::utf8::encode_utf8);
                }
            }
        }
        let first = vstd::string::StrSliceExecFns::get_char(detail, 0);
        if !crate::text::is_lower_char(first) {
            return Err(VocabularyError::Shape);
        }
        Ok(Finding {
            rule_id: rule.to_owned(),
            severity,
            subject: subject.to_owned(),
            detail: detail.to_owned(),
        })
    }
}

/// A valid finding survives its canonical wire form.
pub proof fn lemma_finding_round_trip(v: JsonValue, f: FindingView)
    requires
        finding_wire(v, f),
        finding_valid(f),
    ensures
        finding_of_wire(v) == Ok::<FindingView, VocabularyError>(f),
{
    lemma_severity_round_trip(f.severity, f.severity.spec_text());
}

/// The contract-level content of an unknown flow.
pub struct UnknownFlowView {
    pub source: Seq<char>,
    pub reason: UnknownReason,
}

/// One first-class unknown flow. Unknown is never safe: every entry
/// blocks every gating decision on its path.
#[derive(Debug)]
pub struct UnknownFlow {
    source: SubjectPath,
    reason: UnknownReason,
}

impl View for UnknownFlow {
    type V = UnknownFlowView;

    closed spec fn view(&self) -> UnknownFlowView {
        UnknownFlowView { source: self.source@, reason: self.reason }
    }
}

/// The unknown flow a wire object declares, or why it is refused.
pub open spec fn unknown_of_wire(v: JsonValue) -> Result<UnknownFlowView, VocabularyError> {
    let source = text_member(v, "source"@);
    let reason = text_member(v, "reason"@);
    if !is_object(v) || source is None || subject_error(source.unwrap()) is Some
        || reason is None || UnknownReason::spec_parse(reason.unwrap()) is None {
        Err(VocabularyError::Shape)
    } else {
        Ok(UnknownFlowView { source: source.unwrap(), reason: UnknownReason::spec_parse(reason.unwrap()).unwrap() })
    }
}

/// The canonical wire object of an unknown flow.
pub open spec fn unknown_wire(v: JsonValue, u: UnknownFlowView) -> bool {
    &&& is_object(v)
    &&& member_count(v) == 2
    &&& text_member(v, "source"@) == Some(u.source)
    &&& text_member(v, "reason"@) == Some(u.reason.spec_text())
}

impl UnknownFlow {
    /// An unknown flow of the given parts.
    pub(crate) fn new(source: SubjectPath, reason: UnknownReason) -> (r: UnknownFlow)
        ensures
            r@ == (UnknownFlowView { source: source@, reason }),
    {
        UnknownFlow { source, reason }
    }

    /// The unknown-flow source subject.
    pub fn source(&self) -> (r: &SubjectPath)
        ensures
            r@ == self@.source,
    {
        &self.source
    }

    /// The closed reason.
    pub fn reason(&self) -> (r: UnknownReason)
        ensures
            r == self@.reason,
    {
        self.reason
    }

    /// The canonical wire form.
    pub fn to_wire(&self) -> (r: JsonValue)
        ensures
            unknown_wire(r, self@),
    {
        let fields: Vec<(String, JsonValue)> = vec![
            ("reason".to_owned(), JsonValue::Text(self.reason.as_str().to_owned())),
            ("source".to_owned(), JsonValue::Text(self.source.as_str().to_owned())),
        ];
        proof {
            reveal_strlit("reason");
            reveal_strlit("source");
            assert("reason"@[0] != "source"@[0]);
            crate::json::lemma_lookup_at(fields@, 0);
            crate::json::lemma_lookup_at(fields@, 1);
        }
        JsonValue::Object(fields)
    }

    /// Parse the wire form (row-level validation).
    pub fn from_wire(v: &JsonValue) -> (r: Result<UnknownFlow, VocabularyError>)
        ensures
            match unknown_of_wire(*v) {
                Ok(u) => r matches Ok(x) && x@ == u,
                Err(e) => r matches Err(x) && x == e,
            },
    {
        match v {
            JsonValue::Object(_) => {},
            _ => return Err(VocabularyError::Shape),
        }
        let source = match get_text(v, "source") {
            Some(t) => match SubjectPath::parse(t) {
                Ok(s) => s,
                Err(_) => return Err(VocabularyError::Shape),
            },
            None => return Err(VocabularyError::Shape),
        };
        let reason = match get_text(v, "reason") {
            Some(t) => match UnknownReason::parse(t) { Some(x) => x, None => return Err(VocabularyError::Shape) },
            None => return Err(VocabularyError::Shape),
        };
        Ok(UnknownFlow { source, reason })
    }
}

/// A valid unknown flow survives its canonical wire form.
pub proof fn lemma_unknown_round_trip(v: JsonValue, u: UnknownFlowView)
    requires
        unknown_wire(v, u),
        subject_error(u.source) is None,
    ensures
        unknown_of_wire(v) == Ok::<UnknownFlowView, VocabularyError>(u),
{
    lemma_unknown_reason_round_trip(u.reason, u.reason.spec_text());
}

/// The sort key of a flow: source, sink kind, then id.
pub open spec fn flow_key(f: FlowView) -> (Seq<char>, Seq<char>, Seq<char>) {
    (f.source, f.sink_kind.spec_text(), f.id)
}

impl crate::sorting::Ordered for Flow {
    open spec fn spec_le(&self, other: &Self) -> bool {
        text3_le(flow_key(self@), flow_key(other@))
    }

    proof fn lemma_total(a: &Self, b: &Self) {
        lemma_text3_le_order(flow_key(a@), flow_key(b@), flow_key(a@));
    }

    proof fn lemma_transitive(a: &Self, b: &Self, c: &Self) {
        lemma_text3_le_order(flow_key(a@), flow_key(b@), flow_key(c@));
    }

    fn le(&self, other: &Self) -> (r: bool) {
        text3_le_exec(self.source.as_str(), self.sink_kind.as_str(), self.id.as_str(),
            other.source.as_str(), other.sink_kind.as_str(), other.id.as_str())
    }
}

/// The sort key of a finding: rule, subject, then detail.
pub open spec fn finding_key(f: FindingView) -> (Seq<char>, Seq<char>, Seq<char>) {
    (f.rule_id, f.subject, f.detail)
}

impl crate::sorting::Ordered for Finding {
    open spec fn spec_le(&self, other: &Self) -> bool {
        text3_le(finding_key(self@), finding_key(other@))
    }

    proof fn lemma_total(a: &Self, b: &Self) {
        lemma_text3_le_order(finding_key(a@), finding_key(b@), finding_key(a@));
    }

    proof fn lemma_transitive(a: &Self, b: &Self, c: &Self) {
        lemma_text3_le_order(finding_key(a@), finding_key(b@), finding_key(c@));
    }

    fn le(&self, other: &Self) -> (r: bool) {
        text3_le_exec(self.rule_id.as_str(), self.subject.as_str(), self.detail.as_str(),
            other.rule_id.as_str(), other.subject.as_str(), other.detail.as_str())
    }
}

/// The sort key of an unknown flow: source, then reason.
pub open spec fn unknown_key(u: UnknownFlowView) -> (Seq<char>, Seq<char>, Seq<char>) {
    (u.source, u.reason.spec_text(), Seq::empty())
}

impl crate::sorting::Ordered for UnknownFlow {
    open spec fn spec_le(&self, other: &Self) -> bool {
        text3_le(unknown_key(self@), unknown_key(other@))
    }

    proof fn lemma_total(a: &Self, b: &Self) {
        lemma_text3_le_order(unknown_key(a@), unknown_key(b@), unknown_key(a@));
    }

    proof fn lemma_transitive(a: &Self, b: &Self, c: &Self) {
        lemma_text3_le_order(unknown_key(a@), unknown_key(b@), unknown_key(c@));
    }

    fn le(&self, other: &Self) -> (r: bool) {
        proof { reveal_strlit(""); }
        text3_le_exec(self.source.as_str(), self.reason.as_str(), "",
            other.source.as_str(), other.reason.as_str(), "")
    }
}

} // verus!
