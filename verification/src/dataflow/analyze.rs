//! The deterministic data-flow analysis. The analysis reads the effect
//! graph (declared and detected edges), the classification resolution,
//! the policy, and the tenant-key evidence of the bound entities, and
//! derives one flow per classified edge, the tenant relation and gate
//! decision of every flow, the rule findings, and the first-class
//! unknown list. Unknown is never safe; observed evidence never
//! promotes to canonical certainty.

use vstd::prelude::*;
use vstd::string::StringExecFns;
use crate::text::{has_suffix, str_eq, str_ends_with, decimal, push_decimal, first_index};
use crate::classification::types::{DataKind, SubjectPath, subject_error, subject_head};
use crate::classification::policy::{CrossTenantMode, DestinationKind, KindRuleView, PolicyAttachment, PolicyView,
    ScopeDimension, SinkName, ceiling_of, rule_of};
use crate::classification::resolve::{Resolution, ResolutionView, ResolvedKind, grant_run, resolved};
use crate::classification::wire::DeclassificationView;
use crate::ids::{SemanticId, Sha256Digest};
use crate::text::{text3_le};
use crate::sorting::Ordered;
use crate::diagnostics::set::DiagnosticSet;
use crate::diagnostics::item::DiagnosticView;
use crate::classification::diagnostic::classification_set;
use super::report::{Report, finding_views, flow_views, unknown_views};
use super::version::{MAX_FINDINGS, MAX_FLOWS, MAX_UNKNOWNS};
use super::types::{finding_key, flow_key, unknown_key, Confidence, Finding, FindingView, Flow, FlowView, Gate, GateReason, GateView, Provenance,
    Severity, SinkKind, TenantRelation, UnknownFlow, UnknownFlowView, UnknownReason};

verus! {

// ---------------------------------------------------------------------
// Closed mappings

/// The closed sink kind of one effect-kind key: every declared
/// effect-kind key maps to its own sink kind, and an unknown key falls
/// back to the conservative `storage-write`.
pub open spec fn spec_sink_kind_of(key: Seq<char>) -> SinkKind {
    if key == "read"@ {
        SinkKind::EndpointResponse
    } else if key == "create"@ || key == "update"@ || key == "delete"@ || key == "write-field"@ {
        SinkKind::StorageWrite
    } else if key == "emit-event"@ {
        SinkKind::EventPublish
    } else if key == "enqueue-job"@ || key == "external-call"@ {
        SinkKind::ExternalCall
    } else if key == "cache-read"@ || key == "cache-write"@ || key == "cache-invalidate"@ {
        SinkKind::CacheWrite
    } else if key == "publish-output"@ {
        SinkKind::Publication
    } else if key == "audit-log"@ {
        SinkKind::Log
    } else {
        SinkKind::StorageWrite
    }
}

/// The closed sink kind of one effect-kind key.
pub fn sink_kind_of(key: &str) -> (r: SinkKind)
    ensures
        r == spec_sink_kind_of(key@),
{
    if str_eq(key, "read") {
        SinkKind::EndpointResponse
    } else if str_eq(key, "create") || str_eq(key, "update") || str_eq(key, "delete") || str_eq(key, "write-field") {
        SinkKind::StorageWrite
    } else if str_eq(key, "emit-event") {
        SinkKind::EventPublish
    } else if str_eq(key, "enqueue-job") || str_eq(key, "external-call") {
        SinkKind::ExternalCall
    } else if str_eq(key, "cache-read") || str_eq(key, "cache-write") || str_eq(key, "cache-invalidate") {
        SinkKind::CacheWrite
    } else if str_eq(key, "publish-output") {
        SinkKind::Publication
    } else if str_eq(key, "audit-log") {
        SinkKind::Log
    } else {
        SinkKind::StorageWrite
    }
}

/// The policy sink of one sink kind, when it is a policy surface.
pub open spec fn spec_policy_sink_of(kind: SinkKind) -> Option<SinkName> {
    match kind {
        SinkKind::Log => Some(SinkName::Logs),
        SinkKind::Trace => Some(SinkName::Traces),
        SinkKind::ContextCapsule => Some(SinkName::ContextCapsules),
        SinkKind::Diagnostic => Some(SinkName::Diagnostics),
        SinkKind::Evidence => Some(SinkName::Evidence),
        SinkKind::Export => Some(SinkName::Exports),
        _ => None,
    }
}

/// The policy sink of one sink kind, when it is a policy surface.
pub fn policy_sink_of(kind: SinkKind) -> (r: Option<SinkName>)
    ensures
        r == spec_policy_sink_of(kind),
{
    match kind {
        SinkKind::Log => Some(SinkName::Logs),
        SinkKind::Trace => Some(SinkName::Traces),
        SinkKind::ContextCapsule => Some(SinkName::ContextCapsules),
        SinkKind::Diagnostic => Some(SinkName::Diagnostics),
        SinkKind::Evidence => Some(SinkName::Evidence),
        SinkKind::Export => Some(SinkName::Exports),
        _ => None,
    }
}

/// The registered rule behind one failed gate reason, when any.
pub open spec fn spec_gate_rule_of(reason: GateReason) -> Option<Seq<char>> {
    match reason {
        GateReason::MissingDestination => Some("dataflow.missing-destination"@),
        GateReason::MissingApproval => Some("dataflow.missing-approval"@),
        GateReason::DestinationForbidden => Some("dataflow.destination-forbidden"@),
        GateReason::UnknownFlow => Some("dataflow.unknown-flow"@),
        GateReason::LowConfidence => Some("dataflow.low-confidence-sensitive"@),
        GateReason::SinkCeilingExceeded => Some("classification.sink-ceiling-exceeded"@),
        GateReason::UnclassifiedSubject => Some("classification.unclassified-sensitive-sink"@),
        GateReason::InputsIncomplete => Some("dataflow.observed-incomplete"@),
        _ => None,
    }
}

/// The registered rule behind one failed gate reason, when any.
pub fn gate_rule_of(reason: GateReason) -> (r: Option<&'static str>)
    ensures
        match r {
            Some(t) => spec_gate_rule_of(reason) == Some(t@),
            None => spec_gate_rule_of(reason) is None,
        },
{
    match reason {
        GateReason::MissingDestination => Some("dataflow.missing-destination"),
        GateReason::MissingApproval => Some("dataflow.missing-approval"),
        GateReason::DestinationForbidden => Some("dataflow.destination-forbidden"),
        GateReason::UnknownFlow => Some("dataflow.unknown-flow"),
        GateReason::LowConfidence => Some("dataflow.low-confidence-sensitive"),
        GateReason::SinkCeilingExceeded => Some("classification.sink-ceiling-exceeded"),
        GateReason::UnclassifiedSubject => Some("classification.unclassified-sensitive-sink"),
        GateReason::InputsIncomplete => Some("dataflow.observed-incomplete"),
        GateReason::NotRequired | GateReason::DestinationDeclared | GateReason::ApprovalPresent => None,
    }
}

/// The policy destination a gated sink consumes.
pub open spec fn spec_gated_destination_of(kind: SinkKind) -> Option<DestinationKind> {
    match kind {
        SinkKind::ExternalCall => Some(DestinationKind::InternalService),
        SinkKind::Publication => Some(DestinationKind::MessageBus),
        SinkKind::CacheWrite => Some(DestinationKind::InternalService),
        _ => None,
    }
}

fn gated_destination_of(kind: SinkKind) -> (r: Option<DestinationKind>)
    ensures
        r == spec_gated_destination_of(kind),
{
    match kind {
        SinkKind::ExternalCall => Some(DestinationKind::InternalService),
        SinkKind::Publication => Some(DestinationKind::MessageBus),
        SinkKind::CacheWrite => Some(DestinationKind::InternalService),
        _ => None,
    }
}

// ---------------------------------------------------------------------
// The analysis inputs

/// One effect edge as the analysis reads it: the resource subject it
/// touches, the operation, the effect-kind key, and whether the edge
/// comes from the canonical IR.
pub struct EffectEdge {
    /// The touched resource (a subject path when well formed).
    pub resource: String,
    /// The operation reference as the path hop spells it.
    pub operation: String,
    /// The operation semantic id, the flow's sink symbol.
    pub operation_id: String,
    /// The closed effect-kind key.
    pub kind_key: String,
    /// Whether the edge is backed by the canonical IR.
    pub canonical: bool,
}

/// The contract-level content of an effect edge.
pub struct EffectEdgeView {
    pub resource: Seq<char>,
    pub operation: Seq<char>,
    pub operation_id: Seq<char>,
    pub kind_key: Seq<char>,
    pub canonical: bool,
}

impl View for EffectEdge {
    type V = EffectEdgeView;

    open spec fn view(&self) -> EffectEdgeView {
        EffectEdgeView {
            resource: self.resource@,
            operation: self.operation@,
            operation_id: self.operation_id@,
            kind_key: self.kind_key@,
            canonical: self.canonical,
        }
    }
}

/// The effect graph: declared edges and detected (observed) edges.
pub struct EffectGraph {
    pub declared: Vec<EffectEdge>,
    pub detected: Vec<EffectEdge>,
}

/// The field names of one bound entity: the tenant-key evidence of the
/// tenant-relation projection.
pub struct EntityFields {
    /// The entity semantic id.
    pub id: String,
    /// The entity's field names.
    pub fields: Vec<String>,
}

/// The views of a list of edges.
pub open spec fn edge_views(s: Seq<EffectEdge>) -> Seq<EffectEdgeView> {
    s.map_values(|e: EffectEdge| e@)
}

// ---------------------------------------------------------------------
// Tenant relation

/// Whether a field list declares a tenant key: `tenant_id`, `tenant`,
/// or a name ending in `_tenant_id`.
pub open spec fn has_tenant_key(fields: Seq<String>) -> bool {
    exists|i: int| 0 <= i < fields.len() && (#[trigger] fields[i]@ == "tenant_id"@ || fields[i]@ == "tenant"@
        || has_suffix(fields[i]@, "_tenant_id"@))
}

fn check_tenant_key(fields: &Vec<String>) -> (r: bool)
    ensures
        r == has_tenant_key(fields@),
{
    let mut i: usize = 0;
    while i < fields.len()
        invariant
            i <= fields@.len(),
            forall|j: int| 0 <= j < i ==> !(#[trigger] fields@[j]@ == "tenant_id"@ || fields@[j]@ == "tenant"@
                || has_suffix(fields@[j]@, "_tenant_id"@)),
        decreases fields@.len() - i,
    {
        let f = fields[i].as_str();
        if str_eq(f, "tenant_id") || str_eq(f, "tenant") || str_ends_with(f, "_tenant_id") {
            return true;
        }
        i = i + 1;
    }
    false
}

/// Whether the entity `head` is tenant-partitioned: it is bound and
/// declares a tenant key.
pub open spec fn partitioned(entities: Seq<EntityFields>, head: Seq<char>) -> bool {
    exists|i: int| 0 <= i < entities.len() && #[trigger] entities[i].id@ == head && has_tenant_key(entities[i].fields@)
}

fn check_partitioned(entities: &[EntityFields], head: &str) -> (r: bool)
    ensures
        r == partitioned(entities@, head@),
{
    let mut i: usize = 0;
    while i < entities.len()
        invariant
            i <= entities@.len(),
            forall|j: int| 0 <= j < i ==> !(#[trigger] entities@[j].id@ == head@ && has_tenant_key(entities@[j].fields@)),
        decreases entities@.len() - i,
    {
        if str_eq(entities[i].id.as_str(), head) && check_tenant_key(&entities[i].fields) {
            return true;
        }
        i = i + 1;
    }
    false
}

/// The scope dimension of an actor reference.
pub open spec fn actor_dimension(actor: Seq<char>) -> Option<ScopeDimension> {
    ScopeDimension::spec_parse(actor.subrange(0, first_index(actor, ':')))
}

/// Whether a kind rule grants some reader or writer in the tenant
/// dimension.
pub open spec fn tenant_actor(rule: KindRuleView) -> bool {
    (exists|i: int| 0 <= i < rule.readers.len() && #[trigger] actor_dimension(rule.readers[i]) == Some(ScopeDimension::Tenant))
    || (exists|i: int| 0 <= i < rule.writers.len() && #[trigger] actor_dimension(rule.writers[i]) == Some(ScopeDimension::Tenant))
}

fn any_tenant_actor(actors: &[crate::classification::policy::ActorRef]) -> (r: bool)
    ensures
        r == exists|i: int| 0 <= i < actors@.len() && #[trigger] actor_dimension(actors@[i]@) == Some(ScopeDimension::Tenant),
{
    let mut i: usize = 0;
    while i < actors.len()
        invariant
            i <= actors@.len(),
            forall|j: int| 0 <= j < i ==> #[trigger] actor_dimension(actors@[j]@) != Some(ScopeDimension::Tenant),
        decreases actors@.len() - i,
    {
        let d = actors[i].dimension();
        assert(actor_dimension(actors@[i as int]@) == Some(d));
        if d == ScopeDimension::Tenant {
            return true;
        }
        i = i + 1;
    }
    false
}

/// The tenant relation of one subject flowing to one sink: `unknown`
/// without tenant-key evidence or without a policy row; `same` for
/// tenant-scoped access through a tenant actor (publication-shaped
/// sinks of forbidden kinds stay `unknown`); otherwise `unknown`.
pub open spec fn spec_tenant_relation(
    entities: Seq<EntityFields>,
    policy: PolicyView,
    subject: Seq<char>,
    kind: DataKind,
    sink: SinkKind,
) -> TenantRelation {
    if !partitioned(entities, subject_head(subject)) {
        TenantRelation::Unknown
    } else {
        match rule_of(policy.kinds, kind) {
            None => TenantRelation::Unknown,
            Some(rule) => {
                let scoped = sink is StorageWrite || sink is EndpointResponse || sink is EventPublish;
                if scoped && tenant_actor(rule) {
                    match rule.cross_tenant {
                        CrossTenantMode::Reviewed => TenantRelation::Same,
                        CrossTenantMode::Forbidden => if sink is StorageWrite || sink is EndpointResponse {
                            TenantRelation::Same
                        } else {
                            TenantRelation::Unknown
                        },
                    }
                } else {
                    TenantRelation::Unknown
                }
            },
        }
    }
}

fn tenant_relation_of(
    entities: &[EntityFields],
    policy: &PolicyAttachment,
    subject: &SubjectPath,
    kind: DataKind,
    sink: SinkKind,
) -> (r: TenantRelation)
    ensures
        r == spec_tenant_relation(entities@, policy@, subject@, kind, sink),
{
    if !check_partitioned(entities, subject.semantic_id()) {
        return TenantRelation::Unknown;
    }
    let rule = match policy.rule(kind) {
        Some(rule) => rule,
        None => return TenantRelation::Unknown,
    };
    let scoped = match sink {
        SinkKind::StorageWrite | SinkKind::EndpointResponse | SinkKind::EventPublish => true,
        _ => false,
    };
    let readers = rule.readers();
    let writers = rule.writers();
    proof {
        assert forall|i: int| 0 <= i < readers@.len() implies #[trigger] readers@[i]@ == rule@.readers[i] by {
            assert(crate::classification::policy::token_texts(readers@)[i] == readers@[i]@);
        }
        assert forall|i: int| 0 <= i < writers@.len() implies #[trigger] writers@[i]@ == rule@.writers[i] by {
            assert(crate::classification::policy::token_texts(writers@)[i] == writers@[i]@);
        }
    }
    let tenant = any_tenant_actor(readers) || any_tenant_actor(writers);
    proof {
        if tenant_actor(rule@) {
            if exists|i: int| 0 <= i < rule@.readers.len() && #[trigger] actor_dimension(rule@.readers[i]) == Some(ScopeDimension::Tenant) {
                let i = choose|i: int| 0 <= i < rule@.readers.len() && #[trigger] actor_dimension(rule@.readers[i]) == Some(ScopeDimension::Tenant);
                assert(readers@[i]@ == rule@.readers[i]);
            } else {
                let i = choose|i: int| 0 <= i < rule@.writers.len() && #[trigger] actor_dimension(rule@.writers[i]) == Some(ScopeDimension::Tenant);
                assert(writers@[i]@ == rule@.writers[i]);
            }
        }
    }
    if scoped && tenant {
        match rule.cross_tenant() {
            CrossTenantMode::Reviewed => TenantRelation::Same,
            CrossTenantMode::Forbidden => match sink {
                SinkKind::StorageWrite | SinkKind::EndpointResponse => TenantRelation::Same,
                _ => TenantRelation::Unknown,
            },
        }
    } else {
        TenantRelation::Unknown
    }
}

// ---------------------------------------------------------------------
// Gate decisions

/// A gate block of the given state.
pub open spec fn gate_view(required: bool, satisfied: bool, reason: GateReason) -> GateView {
    GateView { required, satisfied, reason }
}

/// The gating decision for one classified subject flowing to one sink.
/// Policy sinks evaluate their ceiling (no decision when the policy has
/// no ceiling for the sink); gated sinks need a policy row, a consumed
/// destination that the row declares, and, for consent-bearing kinds, a
/// grant on the subject; any other sink needs no gate.
pub open spec fn spec_gate(policy: PolicyView, res: ResolutionView, subject: Seq<char>, kind: DataKind, sink: SinkKind) -> Option<GateView> {
    if sink.spec_is_policy_sink() {
        match spec_policy_sink_of(sink) {
            None => None,
            Some(s) => match ceiling_of(policy.sinks, s) {
                None => None,
                Some(c) => if kind.spec_rank() > c.spec_rank() {
                    Some(gate_view(true, false, GateReason::SinkCeilingExceeded))
                } else {
                    Some(gate_view(true, true, GateReason::DestinationDeclared))
                },
            },
        }
    } else if sink.spec_is_gated() {
        match rule_of(policy.kinds, kind) {
            None => Some(gate_view(true, false, GateReason::UnknownFlow)),
            Some(rule) => match spec_gated_destination_of(sink) {
                None => Some(gate_view(true, false, GateReason::MissingDestination)),
                Some(d) => if !rule.destinations.contains(d) {
                    Some(gate_view(true, false, GateReason::DestinationForbidden))
                } else if rule.consent_required && grant_run(res.grants, subject).len() == 0 {
                    Some(gate_view(true, false, GateReason::MissingApproval))
                } else {
                    Some(gate_view(true, true, GateReason::DestinationDeclared))
                },
            },
        }
    } else {
        Some(gate_view(false, true, GateReason::NotRequired))
    }
}

fn contains_destination(list: &[DestinationKind], d: DestinationKind) -> (r: bool)
    ensures
        r == list@.contains(d),
{
    let mut i: usize = 0;
    while i < list.len()
        invariant
            i <= list@.len(),
            forall|j: int| 0 <= j < i ==> list@[j] != d,
        decreases list@.len() - i,
    {
        if list[i] == d {
            assert(list@[i as int] == d);
            return true;
        }
        i = i + 1;
    }
    false
}

fn gate_outcome(
    policy: &PolicyAttachment,
    resolution: &Resolution,
    subject: &SubjectPath,
    kind: DataKind,
    sink: SinkKind,
) -> (r: Option<Gate>)
    ensures
        match r {
            Some(g) => spec_gate(policy@, resolution@, subject@, kind, sink) == Some(g@),
            None => spec_gate(policy@, resolution@, subject@, kind, sink) is None,
        },
{
    if sink.is_policy_sink() {
        let s = match policy_sink_of(sink) {
            Some(s) => s,
            None => return None,
        };
        let ceiling = match policy.sink(s) {
            Some(c) => c,
            None => return None,
        };
        if kind.rank() > ceiling.max_kind().rank() {
            return Some(Gate::new(true, false, GateReason::SinkCeilingExceeded));
        }
        return Some(Gate::new(true, true, GateReason::DestinationDeclared));
    }
    if sink.is_gated() {
        let rule = match policy.rule(kind) {
            Some(rule) => rule,
            None => return Some(Gate::new(true, false, GateReason::UnknownFlow)),
        };
        let destination = match gated_destination_of(sink) {
            Some(d) => d,
            None => return Some(Gate::new(true, false, GateReason::MissingDestination)),
        };
        if !contains_destination(rule.destinations(), destination) {
            return Some(Gate::new(true, false, GateReason::DestinationForbidden));
        }
        let grants = resolution.grants(subject);
        proof {
            assert(crate::classification::wire::grant_views(grants@).len() == grants@.len());
        }
        if rule.consent_required() && grants.len() == 0 {
            return Some(Gate::new(true, false, GateReason::MissingApproval));
        }
        return Some(Gate::new(true, true, GateReason::DestinationDeclared));
    }
    Some(Gate::new(false, true, GateReason::NotRequired))
}

// ---------------------------------------------------------------------
// Endpoint exposure

/// The closed endpoint-actor vocabulary.
#[derive(Clone, Copy, Debug, PartialEq, Eq, Structural)]
pub enum EndpointActor {
    /// `public`: unauthenticated exposure.
    Public,
    /// Every authenticated actor.
    Authenticated,
}

impl EndpointActor {
    /// The wire spelling of each actor.
    pub open spec fn spec_text(self) -> Seq<char> {
        match self {
            EndpointActor::Public => "public"@,
            EndpointActor::Authenticated => "authenticated"@,
        }
    }

    /// The exact wire spelling.
    pub fn as_str(self) -> (r: &'static str)
        ensures
            r@ == self.spec_text(),
    {
        match self {
            EndpointActor::Public => "public",
            EndpointActor::Authenticated => "authenticated",
        }
    }
}

/// One transport endpoint-actor binding: the endpoint symbol, its
/// actor, and the subject its success response resolves to.
#[derive(Debug)]
pub struct EndpointExposure {
    /// The endpoint semantic id.
    pub endpoint: String,
    /// The closed actor of the binding.
    pub actor: EndpointActor,
    /// The subject the success response exposes.
    pub result_subject: SubjectPath,
}

/// One error finding.
pub open spec fn error_finding(rule: Seq<char>, subject: Seq<char>, detail: Seq<char>) -> FindingView {
    FindingView { rule_id: rule, severity: Severity::Error, subject, detail }
}

/// Whether a grant has expired before the evaluation date.
pub open spec fn grant_expired(g: DeclassificationView) -> bool {
    g.expires_at matches Some(t) && crate::text::text_lt(t, crate::classification::validate::DEFAULT_AS_OF@)
}

/// Whether one grant clears a public exposure of `kind`: a real lowering
/// of that kind to public, never self-approved, not expired.
pub open spec fn clears_exposure(g: DeclassificationView, kind: DataKind) -> bool {
    &&& g.from_kind == kind
    &&& g.to_kind == DataKind::Public
    &&& g.from_kind != DataKind::Credential
    &&& g.approved_by != g.id
    &&& !grant_expired(g)
}

/// Whether an approved, non-self, unexpired grant lowers `kind` to
/// public.
pub open spec fn lowers_to_public(grants: Seq<DeclassificationView>, kind: DataKind) -> bool {
    exists|i: int| 0 <= i < grants.len() && #[trigger] clears_exposure(grants[i], kind)
}

/// The exposure finding of one binding: a public actor whose response
/// resolves above `public` (unclassified counts as credential) is a
/// finding unless an approved grant lowers the subject to public.
pub open spec fn spec_exposure(res: ResolutionView, actor: EndpointActor, subject: Seq<char>) -> Option<FindingView> {
    let kind = match resolved(res, subject) {
        ResolvedKind::Classified(k) => k,
        ResolvedKind::Unclassified => DataKind::Credential,
    };
    if actor != EndpointActor::Public || kind.spec_rank() <= DataKind::Public.spec_rank()
        || lowers_to_public(grant_run(res.grants, subject), kind) {
        None
    } else {
        Some(error_finding("dataflow.exposed-private-field"@, subject, "public-endpoint"@))
    }
}

/// The exposure findings of a list of bindings, in order.
pub open spec fn spec_exposures(res: ResolutionView, xs: Seq<EndpointExposure>) -> Seq<FindingView>
    decreases xs.len(),
{
    if xs.len() == 0 {
        Seq::empty()
    } else {
        let prev = spec_exposures(res, xs.drop_last());
        match spec_exposure(res, xs.last().actor, xs.last().result_subject@) {
            Some(f) => prev.push(f),
            None => prev,
        }
    }
}

fn lowered_to_public(grants: &[crate::classification::wire::Declassification], kind: DataKind) -> (r: bool)
    ensures
        r == lowers_to_public(crate::classification::wire::grant_views(grants@), kind),
{
    let ghost views = crate::classification::wire::grant_views(grants@);
    let mut i: usize = 0;
    while i < grants.len()
        invariant
            i <= grants@.len(),
            views == crate::classification::wire::grant_views(grants@),
            forall|j: int| 0 <= j < i ==> !#[trigger] clears_exposure(views[j], kind),
        decreases grants@.len() - i,
    {
        let g = &grants[i];
        assert(views[i as int] == g@);
        let expired = match g.expires_at() {
            Some(t) => crate::text::str_lt(t.as_str(), crate::classification::validate::DEFAULT_AS_OF),
            None => false,
        };
        if g.from_kind() == kind && g.to_kind() == DataKind::Public && g.from_kind().declassifiable()
            && !str_eq(g.approved_by().as_str(), g.id().as_str()) && !expired {
            assert(clears_exposure(views[i as int], kind));
            return true;
        }
        i = i + 1;
    }
    false
}

/// The public-endpoint exposure evaluation over one resolution and the
/// supplied endpoint-actor bindings.
pub fn exposure_findings(resolution: &Resolution, exposures: &[EndpointExposure]) -> (r: Vec<Finding>)
    ensures
        super::report::finding_views(r@) == spec_exposures(resolution@, exposures@),
{
    let mut out: Vec<Finding> = Vec::new();
    let mut i: usize = 0;
    while i < exposures.len()
        invariant
            i <= exposures@.len(),
            super::report::finding_views(out@) == spec_exposures(resolution@, exposures@.subrange(0, i as int)),
        decreases exposures@.len() - i,
    {
        let x = &exposures[i];
        proof {
            assert(exposures@.subrange(0, i + 1).drop_last() =~= exposures@.subrange(0, i as int));
            assert(exposures@.subrange(0, i + 1).last() == exposures@[i as int]);
        }
        let resolved_kind = resolution.resolve(&x.result_subject);
        let kind = match resolved_kind {
            ResolvedKind::Classified(k) => k,
            ResolvedKind::Unclassified => DataKind::Credential,
        };
        let grants = resolution.grants(&x.result_subject);
        let skip = x.actor != EndpointActor::Public || kind.rank() <= DataKind::Public.rank()
            || lowered_to_public(grants, kind);
        if !skip {
            let ghost before = out@;
            out.push(Finding::new("dataflow.exposed-private-field", Severity::Error, x.result_subject.as_str(), "public-endpoint"));
            proof {
                assert(super::report::finding_views(out@) =~= super::report::finding_views(before).push(out@.last()@));
            }
        }
        i = i + 1;
    }
    proof { assert(exposures@.subrange(0, exposures@.len() as int) =~= exposures@); }
    out
}

// ---------------------------------------------------------------------
// Per-edge evaluation

/// The resolution of an edge's resource, when the resource is a
/// subject path; other resources are skipped.
pub open spec fn edge_resolution(res: ResolutionView, e: EffectEdgeView) -> Option<ResolvedKind> {
    if subject_error(e.resource) is Some {
        None
    } else {
        Some(resolved(res, e.resource))
    }
}

/// Whether an edge yields a flow.
pub open spec fn classified_edge(res: ResolutionView, e: EffectEdgeView) -> bool {
    edge_resolution(res, e) matches Some(ResolvedKind::Classified(_))
}

/// The ordinal padded to at least four digits.
pub open spec fn padded4(n: nat) -> Seq<char> {
    if n < 10 {
        seq!['0', '0', '0'] + decimal(n)
    } else if n < 100 {
        seq!['0', '0'] + decimal(n)
    } else if n < 1000 {
        seq!['0'] + decimal(n)
    } else {
        decimal(n)
    }
}

/// The deterministic flow id: `flow-`, the padded ordinal, `-`, and the
/// first eight hex digits of the subject's SHA-256.
pub open spec fn flow_id_text(ordinal: nat, subject: Seq<char>) -> Seq<char> {
    "flow-"@ + padded4(ordinal) + "-"@
        + crate::digest::hex_of(crate::digest::sha256_of(vstd::utf8::encode_utf8(subject))).subrange(0, 8)
}

/// The one path hop of an edge: `effect:<operation>:<kind key>`.
pub open spec fn hop_text(e: EffectEdgeView) -> Seq<char> {
    "effect:"@ + e.operation + ":"@ + e.kind_key
}

/// The flow of one classified edge with the given ordinal. Declared
/// canonical edges are canonical and high-confidence; anything else is
/// observed with unknown confidence.
pub open spec fn edge_flow(
    entities: Seq<EntityFields>,
    policy: PolicyView,
    res: ResolutionView,
    e: EffectEdgeView,
    observed: bool,
    ordinal: nat,
) -> FlowView {
    let kind = resolved(res, e.resource)->Classified_0;
    let sink = spec_sink_kind_of(e.kind_key);
    let canonical = !observed && e.canonical;
    FlowView {
        id: flow_id_text(ordinal, e.resource),
        source: e.resource,
        path: seq![hop_text(e)],
        sink: e.operation_id,
        sink_kind: sink,
        provenance: if canonical { Provenance::Canonical } else { Provenance::Observed },
        confidence: if canonical { Confidence::High } else { Confidence::Unknown },
        tenant_relation: spec_tenant_relation(entities, policy, e.resource, kind, sink),
        classification: kind,
        gate: spec_gate(policy, res, e.resource, kind, sink),
    }
}

/// Whether the policy ceiling of a sink is below the kind.
pub open spec fn over_ceiling(policy: PolicyView, s: SinkName, kind: DataKind) -> bool {
    ceiling_of(policy.sinks, s) is Some && kind.spec_rank() > ceiling_of(policy.sinks, s).unwrap().spec_rank()
}

/// The sink-ceiling finding of one policy sink.
pub open spec fn ceiling_finding(subject: Seq<char>, s: SinkName) -> FindingView {
    error_finding("classification.sink-ceiling-exceeded"@, subject, "sink-"@ + s.spec_text())
}

/// A credential subject is above the diagnostics or traces ceiling
/// wherever it flows: the first of the two sinks it exceeds.
pub open spec fn credential_findings(policy: PolicyView, kind: DataKind, subject: Seq<char>) -> Seq<FindingView> {
    if kind != DataKind::Credential {
        Seq::empty()
    } else if over_ceiling(policy, SinkName::Diagnostics, DataKind::Credential) {
        seq![ceiling_finding(subject, SinkName::Diagnostics)]
    } else if over_ceiling(policy, SinkName::Traces, DataKind::Credential) {
        seq![ceiling_finding(subject, SinkName::Traces)]
    } else {
        Seq::empty()
    }
}

/// The tenant-crossing finding of a flow: an unresolved or crossing
/// relation on a kind forbidden across tenants.
pub open spec fn tenant_findings(f: FlowView) -> Seq<FindingView> {
    if f.tenant_relation != TenantRelation::Same && f.classification.spec_cross_tenant_forbidden() {
        seq![error_finding("dataflow.tenant-crossing"@, f.source,
            if f.tenant_relation == TenantRelation::Crossing { "cross-tenant-flow"@ } else { "tenant-relation-unknown"@ })]
    } else {
        Seq::empty()
    }
}

/// The finding of a required, unsatisfied gate with a registered rule.
pub open spec fn gate_findings(f: FlowView) -> Seq<FindingView> {
    match f.gate {
        Some(g) => if g.required && !g.satisfied && spec_gate_rule_of(g.reason) is Some {
            seq![error_finding(spec_gate_rule_of(g.reason).unwrap(), f.source, g.reason.spec_text())]
        } else {
            Seq::empty()
        },
        None => Seq::empty(),
    }
}

/// The finding of a sensitive flow below high confidence.
pub open spec fn low_findings(f: FlowView) -> Seq<FindingView> {
    if f.classification.spec_is_sensitive() && f.confidence != Confidence::High {
        seq![error_finding("dataflow.low-confidence-sensitive"@, f.source, f.confidence.spec_text())]
    } else {
        Seq::empty()
    }
}

/// The ceiling finding of a flow into a policy sink above its ceiling.
pub open spec fn sink_findings(policy: PolicyView, f: FlowView) -> Seq<FindingView> {
    match spec_policy_sink_of(f.sink_kind) {
        Some(p) => if over_ceiling(policy, p, f.classification) { seq![ceiling_finding(f.source, p)] } else { Seq::empty() },
        None => Seq::empty(),
    }
}

/// The findings over one declared flow, in rule order: tenant
/// crossing, credential ceilings, the failed gate, low confidence on a
/// sensitive kind, and the policy-sink ceiling.
pub open spec fn declared_findings(policy: PolicyView, f: FlowView) -> Seq<FindingView> {
    tenant_findings(f) + credential_findings(policy, f.classification, f.source) + gate_findings(f) + low_findings(f)
        + sink_findings(policy, f)
}

/// The findings over one detected (observed) flow: low confidence on a
/// sensitive kind, the observed-incomplete rule, and credential
/// ceilings.
pub open spec fn detected_findings(policy: PolicyView, f: FlowView) -> Seq<FindingView> {
    let low = if f.classification.spec_is_sensitive() {
        seq![error_finding("dataflow.low-confidence-sensitive"@, f.source, "unknown"@)]
    } else {
        Seq::empty()
    };
    low + seq![error_finding("dataflow.observed-incomplete"@, f.source, "observed-edge"@)]
        + credential_findings(policy, f.classification, f.source)
}

/// The findings of one edge: none for a skipped resource, the
/// unknown-flow rule for an unresolved subject, else the flow rules.
pub open spec fn edge_findings(
    entities: Seq<EntityFields>,
    policy: PolicyView,
    res: ResolutionView,
    e: EffectEdgeView,
    observed: bool,
) -> Seq<FindingView> {
    match edge_resolution(res, e) {
        None => Seq::empty(),
        Some(ResolvedKind::Unclassified) => seq![error_finding("dataflow.unknown-flow"@, e.resource, "unresolved-subject"@)],
        Some(ResolvedKind::Classified(_)) => if observed {
            detected_findings(policy, edge_flow(entities, policy, res, e, observed, 0))
        } else {
            declared_findings(policy, edge_flow(entities, policy, res, e, observed, 0))
        },
    }
}

/// The unknown flow of one edge, if its subject does not resolve.
pub open spec fn edge_unknowns(res: ResolutionView, e: EffectEdgeView) -> Seq<UnknownFlowView> {
    if edge_resolution(res, e) == Some(ResolvedKind::Unclassified) {
        seq![UnknownFlowView { source: e.resource, reason: UnknownReason::UnresolvedSubject }]
    } else {
        Seq::empty()
    }
}

/// The number of classified edges.
pub open spec fn classified_count(res: ResolutionView, edges: Seq<EffectEdgeView>) -> nat
    decreases edges.len(),
{
    if edges.len() == 0 {
        0
    } else {
        classified_count(res, edges.drop_last()) + if classified_edge(res, edges.last()) { 1nat } else { 0nat }
    }
}

/// The flows of a list of edges, numbered from `base + 1`.
pub open spec fn edges_flows(
    entities: Seq<EntityFields>,
    policy: PolicyView,
    res: ResolutionView,
    edges: Seq<EffectEdgeView>,
    observed: bool,
    base: nat,
) -> Seq<FlowView>
    decreases edges.len(),
{
    if edges.len() == 0 {
        Seq::empty()
    } else {
        let prev = edges_flows(entities, policy, res, edges.drop_last(), observed, base);
        if classified_edge(res, edges.last()) {
            prev.push(edge_flow(entities, policy, res, edges.last(), observed,
                base + classified_count(res, edges.drop_last()) + 1))
        } else {
            prev
        }
    }
}

/// The findings of a list of edges, in edge order.
pub open spec fn edges_findings(
    entities: Seq<EntityFields>,
    policy: PolicyView,
    res: ResolutionView,
    edges: Seq<EffectEdgeView>,
    observed: bool,
) -> Seq<FindingView>
    decreases edges.len(),
{
    if edges.len() == 0 {
        Seq::empty()
    } else {
        edges_findings(entities, policy, res, edges.drop_last(), observed)
            + edge_findings(entities, policy, res, edges.last(), observed)
    }
}

/// The unknown flows of a list of edges, in edge order.
pub open spec fn edges_unknowns(res: ResolutionView, edges: Seq<EffectEdgeView>) -> Seq<UnknownFlowView>
    decreases edges.len(),
{
    if edges.len() == 0 {
        Seq::empty()
    } else {
        edges_unknowns(res, edges.drop_last()) + edge_unknowns(res, edges.last())
    }
}

/// Whether a list of edges leaves the inputs complete: no classified
/// edge is observed or rests on non-canonical evidence.
pub open spec fn edges_complete(res: ResolutionView, edges: Seq<EffectEdgeView>, observed: bool) -> bool
    decreases edges.len(),
{
    if edges.len() == 0 {
        true
    } else {
        edges_complete(res, edges.drop_last(), observed)
            && !(classified_edge(res, edges.last()) && (observed || !edges.last().canonical))
    }
}

// ---------------------------------------------------------------------
// Building one edge's rows

fn flow_id(ordinal: usize, subject: &SubjectPath) -> (r: String)
    ensures
        r@ == flow_id_text(ordinal as nat, subject@),
{
    proof {
        reveal_strlit("flow-");
        reveal_strlit("000");
        reveal_strlit("00");
        reveal_strlit("0");
        reveal_strlit("-");
    }
    let mut id = String::new();
    id.append("flow-");
    if ordinal < 10 {
        id.append("000");
    } else if ordinal < 100 {
        id.append("00");
    } else if ordinal < 1000 {
        id.append("0");
    }
    push_decimal(&mut id, ordinal as u64);
    id.append("-");
    let hex = crate::digest::sha256_hex(subject.as_str().as_bytes());
    let prefix = vstd::string::StrSliceExecFns::substring_char(hex.as_str(), 0, 8);
    id.append(prefix);
    proof {
        let d = decimal(ordinal as nat);
        if ordinal < 10 {
            assert(id@ =~= "flow-"@ + (seq!['0', '0', '0'] + d) + "-"@ + hex@.subrange(0, 8));
        } else if ordinal < 100 {
            assert(id@ =~= "flow-"@ + (seq!['0', '0'] + d) + "-"@ + hex@.subrange(0, 8));
        } else if ordinal < 1000 {
            assert(id@ =~= "flow-"@ + (seq!['0'] + d) + "-"@ + hex@.subrange(0, 8));
        } else {
            assert(id@ =~= "flow-"@ + d + "-"@ + hex@.subrange(0, 8));
        }
    }
    id
}

fn hop(edge: &EffectEdge) -> (r: String)
    ensures
        r@ == hop_text(edge@),
{
    proof {
        reveal_strlit("effect:");
        reveal_strlit(":");
    }
    let mut out = String::new();
    out.append("effect:");
    out.append(edge.operation.as_str());
    out.append(":");
    out.append(edge.kind_key.as_str());
    proof { assert(out@ =~= hop_text(edge@)); }
    out
}

fn push_finding(findings: &mut Vec<Finding>, rule: &str, subject: &str, detail: &str)
    ensures
        super::report::finding_views(final(findings)@)
            == super::report::finding_views(old(findings)@).push(error_finding(rule@, subject@, detail@)),
{
    let ghost before = findings@;
    findings.push(Finding::new(rule, Severity::Error, subject, detail));
    proof {
        assert(super::report::finding_views(findings@)
            =~= super::report::finding_views(before).push(error_finding(rule@, subject@, detail@)));
    }
}

fn push_ceiling_finding(findings: &mut Vec<Finding>, subject: &str, sink: SinkName)
    ensures
        super::report::finding_views(final(findings)@)
            == super::report::finding_views(old(findings)@).push(ceiling_finding(subject@, sink)),
{
    proof { reveal_strlit("sink-"); }
    let mut detail = String::new();
    detail.append("sink-");
    detail.append(sink.as_str());
    push_finding(findings, "classification.sink-ceiling-exceeded", subject, detail.as_str());
}

fn exceeds_ceiling(policy: &PolicyAttachment, sink: SinkName, kind: DataKind) -> (r: bool)
    ensures
        r == over_ceiling(policy@, sink, kind),
{
    match policy.sink(sink) {
        Some(c) => kind.rank() > c.max_kind().rank(),
        None => false,
    }
}

fn push_credential_findings(findings: &mut Vec<Finding>, policy: &PolicyAttachment, kind: DataKind, subject: &str)
    ensures
        super::report::finding_views(final(findings)@)
            == super::report::finding_views(old(findings)@) + credential_findings(policy@, kind, subject@),
{
    let ghost before = super::report::finding_views(findings@);
    if kind != DataKind::Credential {
        assert(before + Seq::<FindingView>::empty() =~= before);
        return;
    }
    if exceeds_ceiling(policy, SinkName::Diagnostics, DataKind::Credential) {
        push_ceiling_finding(findings, subject, SinkName::Diagnostics);
    } else if exceeds_ceiling(policy, SinkName::Traces, DataKind::Credential) {
        push_ceiling_finding(findings, subject, SinkName::Traces);
    } else {
        assert(before + Seq::<FindingView>::empty() =~= before);
        return;
    }
    assert(super::report::finding_views(findings@) =~= before + credential_findings(policy@, kind, subject@));
}

fn push_detected_findings(findings: &mut Vec<Finding>, policy: &PolicyAttachment, flow: &Flow)
    ensures
        super::report::finding_views(final(findings)@)
            == super::report::finding_views(old(findings)@) + detected_findings(policy@, flow@),
{
    let ghost findings0 = super::report::finding_views(findings@);
    let s = flow.source().as_str();
    let kind = flow.classification();
    let ghost low = if kind.spec_is_sensitive() {
        seq![error_finding("dataflow.low-confidence-sensitive"@, s@, "unknown"@)]
    } else {
        Seq::<FindingView>::empty()
    };
    if kind.is_sensitive() {
        push_finding(findings, "dataflow.low-confidence-sensitive", s, "unknown");
    }
    assert(super::report::finding_views(findings@) =~= findings0 + low);
    push_finding(findings, "dataflow.observed-incomplete", s, "observed-edge");
    push_credential_findings(findings, policy, kind, s);
    assert(super::report::finding_views(findings@) =~= findings0 + detected_findings(policy@, flow@));
}

fn push_tenant_finding(findings: &mut Vec<Finding>, flow: &Flow)
    ensures
        super::report::finding_views(final(findings)@) == super::report::finding_views(old(findings)@) + tenant_findings(flow@),
{
    let ghost findings0 = super::report::finding_views(findings@);
    let tenant = flow.tenant_relation();
    if tenant != TenantRelation::Same && flow.classification().cross_tenant_forbidden_by_default() {
        if tenant == TenantRelation::Crossing {
            push_finding(findings, "dataflow.tenant-crossing", flow.source().as_str(), "cross-tenant-flow");
        } else {
            push_finding(findings, "dataflow.tenant-crossing", flow.source().as_str(), "tenant-relation-unknown");
        }
        assert(super::report::finding_views(findings@) =~= findings0 + tenant_findings(flow@));
    } else {
        assert(findings0 + Seq::<FindingView>::empty() =~= findings0);
    }
}

fn push_gate_finding(findings: &mut Vec<Finding>, flow: &Flow)
    ensures
        super::report::finding_views(final(findings)@) == super::report::finding_views(old(findings)@) + gate_findings(flow@),
{
    let ghost findings0 = super::report::finding_views(findings@);
    match flow.gate() {
        Some(g) => {
            if g.required() && !g.satisfied() {
                match gate_rule_of(g.reason()) {
                    Some(rule) => {
                        push_finding(findings, rule, flow.source().as_str(), g.reason().as_str());
                        assert(super::report::finding_views(findings@) =~= findings0 + gate_findings(flow@));
                        return;
                    },
                    None => {},
                }
            }
        },
        None => {},
    }
    assert(findings0 + Seq::<FindingView>::empty() =~= findings0);
}

fn push_low_finding(findings: &mut Vec<Finding>, flow: &Flow)
    ensures
        super::report::finding_views(final(findings)@) == super::report::finding_views(old(findings)@) + low_findings(flow@),
{
    let ghost findings0 = super::report::finding_views(findings@);
    let confidence = flow.confidence();
    if flow.classification().is_sensitive() && confidence != Confidence::High {
        push_finding(findings, "dataflow.low-confidence-sensitive", flow.source().as_str(), confidence.as_str());
        assert(super::report::finding_views(findings@) =~= findings0 + low_findings(flow@));
    } else {
        assert(findings0 + Seq::<FindingView>::empty() =~= findings0);
    }
}

fn push_sink_finding(findings: &mut Vec<Finding>, policy: &PolicyAttachment, flow: &Flow)
    ensures
        super::report::finding_views(final(findings)@) == super::report::finding_views(old(findings)@)
            + sink_findings(policy@, flow@),
{
    let ghost findings0 = super::report::finding_views(findings@);
    match policy_sink_of(flow.sink_kind()) {
        Some(p) => {
            if exceeds_ceiling(policy, p, flow.classification()) {
                push_ceiling_finding(findings, flow.source().as_str(), p);
                assert(super::report::finding_views(findings@) =~= findings0 + sink_findings(policy@, flow@));
                return;
            }
        },
        None => {},
    }
    assert(findings0 + Seq::<FindingView>::empty() =~= findings0);
}

fn push_declared_findings(findings: &mut Vec<Finding>, policy: &PolicyAttachment, flow: &Flow)
    ensures
        super::report::finding_views(final(findings)@)
            == super::report::finding_views(old(findings)@) + declared_findings(policy@, flow@),
{
    let ghost f0 = super::report::finding_views(findings@);
    push_tenant_finding(findings, flow);
    push_credential_findings(findings, policy, flow.classification(), flow.source().as_str());
    push_gate_finding(findings, flow);
    push_low_finding(findings, flow);
    push_sink_finding(findings, policy, flow);
    proof {
        let t = tenant_findings(flow@);
        let c = credential_findings(policy@, flow@.classification, flow@.source);
        let g = gate_findings(flow@);
        let l = low_findings(flow@);
        let k = sink_findings(policy@, flow@);
        assert(f0 + t + c + g + l + k =~= f0 + (t + c + g + l + k));
    }
}

/// The findings rules read no flow id.
proof fn lemma_findings_ignore_id(policy: PolicyView, f: FlowView, g: FlowView)
    requires
        f.source == g.source,
        f.sink_kind == g.sink_kind,
        f.confidence == g.confidence,
        f.tenant_relation == g.tenant_relation,
        f.classification == g.classification,
        f.gate == g.gate,
    ensures
        declared_findings(policy, f) == declared_findings(policy, g),
        detected_findings(policy, f) == detected_findings(policy, g),
{
}

/// Evaluate one edge: push its flow (numbered `ordinal + 1`), its
/// findings, and its unknown; report whether it was classified.
fn eval_edge(
    entities: &[EntityFields],
    policy: &PolicyAttachment,
    resolution: &Resolution,
    edge: &EffectEdge,
    observed: bool,
    ordinal: usize,
    flows: &mut Vec<Flow>,
    findings: &mut Vec<Finding>,
    unknowns: &mut Vec<UnknownFlow>,
) -> (classified: bool)
    requires
        ordinal < usize::MAX,
    ensures
        classified == classified_edge(resolution@, edge@),
        super::report::flow_views(final(flows)@) == super::report::flow_views(old(flows)@)
            + if classified { seq![edge_flow(entities@, policy@, resolution@, edge@, observed, ordinal as nat + 1)] } else { Seq::empty() },
        super::report::finding_views(final(findings)@) == super::report::finding_views(old(findings)@)
            + edge_findings(entities@, policy@, resolution@, edge@, observed),
        super::report::unknown_views(final(unknowns)@) == super::report::unknown_views(old(unknowns)@)
            + edge_unknowns(resolution@, edge@),
{
    let ghost flows0 = super::report::flow_views(flows@);
    let ghost findings0 = super::report::finding_views(findings@);
    let ghost unknowns0 = super::report::unknown_views(unknowns@);
    let subject = match SubjectPath::parse(edge.resource.as_str()) {
        Ok(s) => s,
        Err(_) => {
            assert(flows0 + Seq::<FlowView>::empty() =~= flows0);
            assert(findings0 + Seq::<FindingView>::empty() =~= findings0);
            assert(unknowns0 + Seq::<UnknownFlowView>::empty() =~= unknowns0);
            return false;
        },
    };
    let kind = match resolution.resolve(&subject) {
        ResolvedKind::Classified(k) => k,
        ResolvedKind::Unclassified => {
            unknowns.push(UnknownFlow::new(subject.clone(), UnknownReason::UnresolvedSubject));
            push_finding(findings, "dataflow.unknown-flow", subject.as_str(), "unresolved-subject");
            assert(super::report::unknown_views(unknowns@) =~= unknowns0 + edge_unknowns(resolution@, edge@));
            assert(super::report::finding_views(findings@) =~= findings0 + edge_findings(entities@, policy@, resolution@, edge@, observed));
            assert(flows0 + Seq::<FlowView>::empty() =~= flows0);
            return false;
        },
    };
    let sink = sink_kind_of(edge.kind_key.as_str());
    let canonical = !observed && edge.canonical;
    let provenance = if canonical { Provenance::Canonical } else { Provenance::Observed };
    let confidence = if canonical { Confidence::High } else { Confidence::Unknown };
    let tenant = tenant_relation_of(entities, policy, &subject, kind, sink);
    let gate = gate_outcome(policy, resolution, &subject, kind, sink);
    let id = flow_id(ordinal + 1, &subject);
    let path = vec![hop(edge)];
    let ghost fv = edge_flow(entities@, policy@, resolution@, edge@, observed, ordinal as nat + 1);
    let flow = Flow::new(id, subject, path, edge.operation_id.clone(), sink, provenance, confidence, tenant,
        kind, gate);
    proof {
        assert(super::types::string_views(path@) =~= seq![hop_text(edge@)]);
        assert(flow@ == fv);
        lemma_findings_ignore_id(policy@, fv, edge_flow(entities@, policy@, resolution@, edge@, observed, 0));
    }
    if observed {
        push_detected_findings(findings, policy, &flow);
    } else {
        push_declared_findings(findings, policy, &flow);
    }
    flows.push(flow);
    assert(super::report::flow_views(flows@) =~= flows0 + seq![fv]);
    assert(unknowns0 + Seq::<UnknownFlowView>::empty() =~= unknowns0);
    true
}

// ---------------------------------------------------------------------
// The analysis

/// The input bundle of one analysis run.
pub struct Inputs<'a> {
    /// The project identity.
    pub project_id: &'a SemanticId,
    /// The bound Model pin `(modelVersion, digest)`.
    pub model_ref: (&'a str, &'a Sha256Digest),
    /// The bound IR pin `(irVersion, digest)`.
    pub ir_ref: (&'a str, &'a Sha256Digest),
    /// The effect graph (declared plus detected edges).
    pub graph: &'a EffectGraph,
    /// The field names of the bound entities (tenant-key evidence).
    pub entities: &'a [EntityFields],
    /// The classification resolution.
    pub classification: &'a Resolution,
    /// The canonical digest of the classification attachment.
    pub classification_ref: &'a Sha256Digest,
    /// The governing policy attachment.
    pub policy: &'a PolicyAttachment,
    /// The canonical digest of the policy attachment.
    pub policy_ref: &'a Sha256Digest,
    /// The engine identity recorded as `generatedBy`.
    pub generated_by: &'a str,
    /// The report revision.
    pub report_revision: &'a str,
    /// The transport endpoint-actor bindings.
    pub endpoint_exposures: &'a [EndpointExposure],
}

/// The derived report plus the diagnostics the derivation surfaced.
pub struct Analysis {
    /// The derived read-only report.
    pub report: Report,
    /// The findings as one normalized diagnostic set.
    pub diagnostics: DiagnosticSet,
}

/// Every flow the edges yield: declared edges first, then detected
/// edges, numbered in that order.
pub open spec fn raw_flows(i: Inputs) -> Seq<FlowView> {
    let d = edge_views(i.graph.declared@);
    edges_flows(i.entities@, i.policy@, i.classification@, d, false, 0)
        + edges_flows(i.entities@, i.policy@, i.classification@, edge_views(i.graph.detected@), true,
            classified_count(i.classification@, d))
}

/// Every finding the edges and the endpoint bindings yield.
pub open spec fn raw_findings(i: Inputs) -> Seq<FindingView> {
    edges_findings(i.entities@, i.policy@, i.classification@, edge_views(i.graph.declared@), false)
        + edges_findings(i.entities@, i.policy@, i.classification@, edge_views(i.graph.detected@), true)
        + spec_exposures(i.classification@, i.endpoint_exposures@)
}

/// Every unknown flow the edges yield.
pub open spec fn raw_unknowns(i: Inputs) -> Seq<UnknownFlowView> {
    edges_unknowns(i.classification@, edge_views(i.graph.declared@))
        + edges_unknowns(i.classification@, edge_views(i.graph.detected@))
}

/// Whether the inputs were complete: no classified edge rests on
/// observed or non-canonical evidence.
pub open spec fn inputs_complete_of(i: Inputs) -> bool {
    edges_complete(i.classification@, edge_views(i.graph.declared@), false)
        && edges_complete(i.classification@, edge_views(i.graph.detected@), true)
}

/// Some finding of the list has the given sort key.
pub open spec fn finding_keyed(fi: Seq<FindingView>, key: (Seq<char>, Seq<char>, Seq<char>)) -> bool {
    exists|a: int| 0 <= a < fi.len() && #[trigger] finding_key(fi[a]) == key
}

/// Some unknown flow of the list has the given sort key.
pub open spec fn unknown_keyed(un: Seq<UnknownFlowView>, key: (Seq<char>, Seq<char>, Seq<char>)) -> bool {
    exists|a: int| 0 <= a < un.len() && #[trigger] unknown_key(un[a]) == key
}

/// The canonical rows of an analysis: the raw flows sorted by source,
/// sink kind, and id; the raw findings sorted by rule, subject, and
/// detail with one finding per key; the raw unknowns sorted by source
/// and reason with one per key.
pub open spec fn canonical_rows(i: Inputs, fl: Seq<FlowView>, fi: Seq<FindingView>, un: Seq<UnknownFlowView>) -> bool {
    &&& fl.len() == raw_flows(i).len()
    &&& forall|k: int| 0 <= k < fl.len() ==> raw_flows(i).contains(#[trigger] fl[k])
    &&& forall|k: int| 0 <= k < raw_flows(i).len() ==> fl.contains(#[trigger] raw_flows(i)[k])
    &&& forall|a: int, b: int| 0 <= a < b < fl.len() ==> text3_le(flow_key(#[trigger] fl[a]), flow_key(#[trigger] fl[b]))
    &&& forall|a: int, b: int| 0 <= a < b < fi.len()
        ==> text3_le(finding_key(#[trigger] fi[a]), finding_key(#[trigger] fi[b])) && finding_key(fi[a]) != finding_key(fi[b])
    &&& forall|k: int| 0 <= k < fi.len() ==> raw_findings(i).contains(#[trigger] fi[k])
    &&& forall|k: int| 0 <= k < raw_findings(i).len() ==> finding_keyed(fi, finding_key(#[trigger] raw_findings(i)[k]))
    &&& forall|a: int, b: int| 0 <= a < b < un.len()
        ==> text3_le(unknown_key(#[trigger] un[a]), unknown_key(#[trigger] un[b])) && unknown_key(un[a]) != unknown_key(un[b])
    &&& forall|k: int| 0 <= k < un.len() ==> raw_unknowns(i).contains(#[trigger] un[k])
    &&& forall|k: int| 0 <= k < raw_unknowns(i).len() ==> unknown_keyed(un, unknown_key(#[trigger] raw_unknowns(i)[k]))
}

/// The refusal of an analysis whose canonical rows exceed a bound: the
/// first bound exceeded, in the order flows, findings, unknowns.
pub open spec fn limit_refusal(fl: Seq<FlowView>, fi: Seq<FindingView>, un: Seq<UnknownFlowView>, set: Seq<DiagnosticView>) -> bool {
    if fl.len() > MAX_FLOWS {
        classification_set(set, "classification.unknown-kind"@, "report-flow-limit"@, None)
    } else if fi.len() > MAX_FINDINGS {
        classification_set(set, "classification.unknown-kind"@, "report-finding-limit"@, None)
    } else {
        un.len() > MAX_UNKNOWNS && classification_set(set, "classification.unknown-kind"@, "report-unknown-limit"@, None)
    }
}

/// The analysis of `i` is refused because its canonical rows exceed a
/// bound, with the refusal of the first bound exceeded.
pub open spec fn refused_over_limit(i: Inputs, set: Seq<DiagnosticView>) -> bool {
    exists|fl: Seq<FlowView>, fi: Seq<FindingView>, un: Seq<UnknownFlowView>|
        canonical_rows(i, fl, fi, un) && #[trigger] limit_refusal(fl, fi, un, set)
}

fn canonical_flows(v: Vec<Flow>) -> (r: Vec<Flow>)
    ensures
        r@.len() == v@.len(),
        forall|k: int| 0 <= k < r@.len() ==> flow_views(v@).contains(#[trigger] flow_views(r@)[k]),
        forall|k: int| 0 <= k < v@.len() ==> flow_views(r@).contains(#[trigger] flow_views(v@)[k]),
        forall|a: int, b: int| 0 <= a < b < r@.len()
            ==> text3_le(flow_key(#[trigger] flow_views(r@)[a]), flow_key(#[trigger] flow_views(r@)[b])),
{
    let ghost input = v@;
    let r = crate::sorting::sort(v);
    proof {
        broadcast use vstd::seq_lib::group_to_multiset_ensures;
        assert forall|k: int| 0 <= k < r@.len() implies flow_views(input).contains(#[trigger] flow_views(r@)[k]) by {
            assert(r@.contains(r@[k]));
            assert(r@.to_multiset().count(r@[k]) > 0);
            assert(input.to_multiset().count(r@[k]) > 0);
            assert(input.contains(r@[k]));
            let j = choose|j: int| 0 <= j < input.len() && input[j] == r@[k];
            assert(flow_views(input)[j] == flow_views(r@)[k]);
        }
        assert forall|k: int| 0 <= k < input.len() implies flow_views(r@).contains(#[trigger] flow_views(input)[k]) by {
            assert(input.contains(input[k]));
            assert(input.to_multiset().count(input[k]) > 0);
            assert(r@.to_multiset().count(input[k]) > 0);
            assert(r@.contains(input[k]));
            let j = choose|j: int| 0 <= j < r@.len() && r@[j] == input[k];
            assert(flow_views(r@)[j] == flow_views(input)[k]);
        }
        assert forall|a: int, b: int| 0 <= a < b < r@.len()
            implies text3_le(flow_key(#[trigger] flow_views(r@)[a]), flow_key(#[trigger] flow_views(r@)[b])) by {
            crate::sorting::lemma_sorted_at(r@, a, b);
        }
    }
    r
}

fn canonical_findings(v: Vec<Finding>) -> (r: Vec<Finding>)
    ensures
        forall|a: int, b: int| 0 <= a < b < r@.len()
            ==> text3_le(finding_key(#[trigger] finding_views(r@)[a]), finding_key(#[trigger] finding_views(r@)[b]))
                && finding_key(finding_views(r@)[a]) != finding_key(finding_views(r@)[b]),
        forall|k: int| 0 <= k < r@.len() ==> finding_views(v@).contains(#[trigger] finding_views(r@)[k]),
        forall|k: int| 0 <= k < v@.len() ==> finding_keyed(finding_views(r@), finding_key(#[trigger] finding_views(v@)[k])),
{
    let ghost input = v@;
    let r = crate::sorting::sort_dedup(v);
    proof {
        assert(crate::sorting::strictly_sorted(r@));
        assert forall|a: int, b: int| 0 <= a < b < r@.len()
            implies text3_le(finding_key(#[trigger] finding_views(r@)[a]), finding_key(#[trigger] finding_views(r@)[b]))
                && finding_key(finding_views(r@)[a]) != finding_key(finding_views(r@)[b]) by {
            crate::sorting::lemma_strictly_sorted_at(r@, a, b);
            crate::text::lemma_text3_le_order(finding_key(r@[a]@), finding_key(r@[b]@), finding_key(r@[a]@));
        }
        assert forall|k: int| 0 <= k < r@.len() implies finding_views(input).contains(#[trigger] finding_views(r@)[k]) by {
            let j = choose|j: int| 0 <= j < input.len() && input[j] == r@[k];
            assert(finding_views(input)[j] == finding_views(r@)[k]);
        }
        assert forall|k: int| 0 <= k < input.len() implies finding_keyed(finding_views(r@), finding_key(#[trigger] finding_views(input)[k])) by {
            assert(crate::sorting::covered(r@, input[k]));
            let a = choose|a: int| 0 <= a < r@.len() && #[trigger] crate::sorting::equivalent(r@[a], input[k]);
            crate::text::lemma_text3_le_order(finding_key(r@[a]@), finding_key(input[k]@), finding_key(r@[a]@));
            assert(finding_views(r@)[a] == r@[a]@);
            assert(finding_views(input)[k] == input[k]@);
            assert(finding_key(finding_views(r@)[a]) == finding_key(finding_views(input)[k]));
        }
    }
    r
}

fn canonical_unknowns(v: Vec<UnknownFlow>) -> (r: Vec<UnknownFlow>)
    ensures
        forall|a: int, b: int| 0 <= a < b < r@.len()
            ==> text3_le(unknown_key(#[trigger] unknown_views(r@)[a]), unknown_key(#[trigger] unknown_views(r@)[b]))
                && unknown_key(unknown_views(r@)[a]) != unknown_key(unknown_views(r@)[b]),
        forall|k: int| 0 <= k < r@.len() ==> unknown_views(v@).contains(#[trigger] unknown_views(r@)[k]),
        forall|k: int| 0 <= k < v@.len() ==> unknown_keyed(unknown_views(r@), unknown_key(#[trigger] unknown_views(v@)[k])),
{
    let ghost input = v@;
    let r = crate::sorting::sort_dedup(v);
    proof {
        assert(crate::sorting::strictly_sorted(r@));
        assert forall|a: int, b: int| 0 <= a < b < r@.len()
            implies text3_le(unknown_key(#[trigger] unknown_views(r@)[a]), unknown_key(#[trigger] unknown_views(r@)[b]))
                && unknown_key(unknown_views(r@)[a]) != unknown_key(unknown_views(r@)[b]) by {
            crate::sorting::lemma_strictly_sorted_at(r@, a, b);
            crate::text::lemma_text3_le_order(unknown_key(r@[a]@), unknown_key(r@[b]@), unknown_key(r@[a]@));
        }
        assert forall|k: int| 0 <= k < r@.len() implies unknown_views(input).contains(#[trigger] unknown_views(r@)[k]) by {
            let j = choose|j: int| 0 <= j < input.len() && input[j] == r@[k];
            assert(unknown_views(input)[j] == unknown_views(r@)[k]);
        }
        assert forall|k: int| 0 <= k < input.len() implies unknown_keyed(unknown_views(r@), unknown_key(#[trigger] unknown_views(input)[k])) by {
            assert(crate::sorting::covered(r@, input[k]));
            let a = choose|a: int| 0 <= a < r@.len() && #[trigger] crate::sorting::equivalent(r@[a], input[k]);
            crate::text::lemma_text3_le_order(unknown_key(r@[a]@), unknown_key(input[k]@), unknown_key(r@[a]@));
            assert(unknown_views(r@)[a] == r@[a]@);
            assert(unknown_views(input)[k] == input[k]@);
            assert(unknown_key(unknown_views(r@)[a]) == unknown_key(unknown_views(input)[k]));
        }
    }
    r
}

/// The edges step for one list of edges.
fn eval_edges(
    entities: &[EntityFields],
    policy: &PolicyAttachment,
    resolution: &Resolution,
    edges: &Vec<EffectEdge>,
    observed: bool,
    base: usize,
    flows: &mut Vec<Flow>,
    findings: &mut Vec<Finding>,
    unknowns: &mut Vec<UnknownFlow>,
) -> (r: (usize, bool))
    requires
        base + edges@.len() < usize::MAX,
    ensures
        r.0 == base + classified_count(resolution@, edge_views(edges@)),
        r.0 <= base + edges@.len(),
        r.1 == edges_complete(resolution@, edge_views(edges@), observed),
        flow_views(final(flows)@) == flow_views(old(flows)@)
            + edges_flows(entities@, policy@, resolution@, edge_views(edges@), observed, base as nat),
        finding_views(final(findings)@) == finding_views(old(findings)@)
            + edges_findings(entities@, policy@, resolution@, edge_views(edges@), observed),
        unknown_views(final(unknowns)@) == unknown_views(old(unknowns)@)
            + edges_unknowns(resolution@, edge_views(edges@)),
{
    let ghost ev = edge_views(edges@);
    let ghost flows0 = flow_views(flows@);
    let ghost findings0 = finding_views(findings@);
    let ghost unknowns0 = unknown_views(unknowns@);
    let mut ordinal: usize = base;
    let mut complete = true;
    let mut i: usize = 0;
    proof {
        assert(ev.subrange(0, 0) =~= Seq::<EffectEdgeView>::empty());
        assert(flows0 + Seq::<FlowView>::empty() =~= flows0);
        assert(findings0 + Seq::<FindingView>::empty() =~= findings0);
        assert(unknowns0 + Seq::<UnknownFlowView>::empty() =~= unknowns0);
    }
    while i < edges.len()
        invariant
            ev == edge_views(edges@),
            i <= edges@.len(),
            base + edges@.len() < usize::MAX,
            ordinal == base + classified_count(resolution@, ev.subrange(0, i as int)),
            classified_count(resolution@, ev.subrange(0, i as int)) <= i,
            complete == edges_complete(resolution@, ev.subrange(0, i as int), observed),
            flow_views(flows@) == flows0 + edges_flows(entities@, policy@, resolution@, ev.subrange(0, i as int), observed, base as nat),
            finding_views(findings@) == findings0 + edges_findings(entities@, policy@, resolution@, ev.subrange(0, i as int), observed),
            unknown_views(unknowns@) == unknowns0 + edges_unknowns(resolution@, ev.subrange(0, i as int)),
        decreases edges@.len() - i,
    {
        let ghost pre = ev.subrange(0, i as int);
        let ghost next = ev.subrange(0, i + 1);
        proof {
            assert(next.drop_last() =~= pre);
            assert(next.last() == edges@[i as int]@);
        }
        let ghost fl = flow_views(flows@);
        let ghost fi = finding_views(findings@);
        let ghost un = unknown_views(unknowns@);
        let classified = eval_edge(entities, policy, resolution, &edges[i], observed, ordinal, flows, findings, unknowns);
        proof {
            assert(flow_views(flows@) =~= flows0 + edges_flows(entities@, policy@, resolution@, next, observed, base as nat));
            assert(finding_views(findings@) =~= findings0 + edges_findings(entities@, policy@, resolution@, next, observed));
            assert(unknown_views(unknowns@) =~= unknowns0 + edges_unknowns(resolution@, next));
        }
        if classified {
            ordinal = ordinal + 1;
            if observed || !edges[i].canonical {
                complete = false;
            }
        }
        i = i + 1;
    }
    proof { assert(ev.subrange(0, edges@.len() as int) =~= ev); }
    (ordinal, complete)
}

/// The detail tag of a finding's diagnostic: the detail, then
/// `:subject-` and the hex SHA-256 of the subject; the raw subject never
/// enters the diagnostic.
pub open spec fn finding_tag(f: FindingView) -> Seq<char> {
    f.detail + ":"@ + crate::classification::diagnostic::subject_tag(f.subject)
}

/// Whether a diagnostic is the registered item of a finding.
pub open spec fn finding_item(d: DiagnosticView, f: FindingView) -> bool {
    &&& crate::classification::diagnostic::rule_item(d, f.rule_id)
    &&& d.data.len() == 1
    &&& crate::classification::diagnostic::token_member(d.data[0], "detail"@,
        crate::text::bounded_prefix(finding_tag(f), 256))
}

/// `src` maps each item of `u`, in order, to the finding it mirrors:
/// findings in increasing order, every finding of a registered active
/// rule mirrored.
pub open spec fn item_sources(src: Seq<int>, u: Seq<DiagnosticView>, findings: Seq<FindingView>) -> bool {
    &&& src.len() == u.len()
    &&& forall|k: int| 0 <= k < u.len() ==> 0 <= #[trigger] src[k] < findings.len() && finding_item(u[k], findings[src[k]])
    &&& forall|a: int, b: int| 0 <= a < b < src.len() ==> #[trigger] src[a] < #[trigger] src[b]
    &&& forall|j: int| 0 <= j < findings.len() && active_rule(#[trigger] findings[j].rule_id)
        ==> exists|k: int| 0 <= k < src.len() && src[k] == j
}

/// `u` holds, in finding order, the registered item of each finding
/// whose rule is registered and active, and nothing else.
pub open spec fn finding_items(u: Seq<DiagnosticView>, findings: Seq<FindingView>) -> bool {
    exists|src: Seq<int>| #[trigger] item_sources(src, u, findings)
}

/// The envelope status of a finding list: `invalid` when any finding is
/// an error, `valid` otherwise.
pub open spec fn findings_status(findings: Seq<FindingView>) -> crate::diagnostics::types::Status {
    if exists|j: int| 0 <= j < findings.len() && (#[trigger] findings[j]).severity is Error {
        crate::diagnostics::types::Status::Invalid
    } else {
        crate::diagnostics::types::Status::Valid
    }
}

/// The diagnostic set of a finding list: the findings' items normalized
/// into one result set under the findings' status; the registry-invalid
/// set when that set cannot be formed (too many items, or a rule not
/// allowed under the status).
pub open spec fn findings_set(set: Seq<DiagnosticView>, findings: Seq<FindingView>) -> bool {
    exists|u: Seq<DiagnosticView>| #[trigger] finding_items(u, findings) && if u.len() <= crate::diagnostics::normalize::DIAGNOSTICS_PER_RESULT
        && DiagnosticSet::all_allowed(u, findings_status(findings)) {
        crate::diagnostics::normalize::normalized_set(u, set)
    } else {
        crate::diagnostics::set::singleton_view("diagnostics.registry-invalid"@, set)
    }
}

/// Whether a rule id names a registered rule that is active, so that a
/// diagnostic of it can be built.
pub open spec fn active_rule(rule: Seq<char>) -> bool {
    crate::diagnostics::registry::find_rule(crate::diagnostics::registry::rule_table(), rule) matches Some(row)
        && row.lifecycle == crate::diagnostics::registry::Lifecycle::Active
}

/// The registered diagnostic of one finding, or `None` when its rule is
/// not a registered active rule.
fn finding_diagnostic(f: &Finding) -> (r: Option<crate::diagnostics::item::Diagnostic>)
    ensures
        r is Some <==> active_rule(f@.rule_id),
        r matches Some(d) ==> finding_item(d@, f@),
{
    let hex = crate::digest::sha256_hex(f.subject().as_bytes());
    let mut tag = String::new();
    tag.append(f.detail());
    tag.append(":subject-");
    tag.append(hex.as_str());
    proof {
        reveal_strlit(":subject-");
        reveal_strlit(":");
        reveal_strlit("subject-");
        assert(tag@ =~= finding_tag(f@));
    }
    let mut data: Vec<(String, crate::diagnostics::types::DataValue)> = Vec::new();
    data.push(("detail".to_owned(), crate::diagnostics::types::DataValue::Token(crate::text::bound_text(tag.as_str(), 256))));
    match crate::diagnostics::set::build(f.rule_id(), None, None, data) {
        Ok(d) => {
            proof {
                assert(crate::diagnostics::item::data_view(data@)[0] == (data@[0].0@, data@[0].1));
            }
            Some(d)
        },
        Err(_) => None,
    }
}

/// Mirror the findings into one diagnostic set: `invalid` when any
/// finding is an error, `valid` otherwise; a registry failure collapses
/// to the registry-invalid set.
fn findings_to_diagnostics(findings: &Vec<Finding>) -> (r: DiagnosticSet)
    ensures
        findings_set(r@, finding_views(findings@)),
{
    let ghost fv = finding_views(findings@);
    let ghost mut src: Seq<int> = Seq::empty();
    let mut has_error = false;
    let mut items: Vec<crate::diagnostics::item::Diagnostic> = Vec::new();
    let mut i: usize = 0;
    while i < findings.len()
        invariant
            i <= findings@.len(),
            fv == finding_views(findings@),
            src.len() == items@.len(),
            forall|k: int| 0 <= k < items@.len() ==> 0 <= #[trigger] src[k] < i && finding_item(items@[k]@, fv[src[k]]),
            forall|a: int, b: int| 0 <= a < b < src.len() ==> #[trigger] src[a] < #[trigger] src[b],
            forall|j: int| 0 <= j < i && active_rule(#[trigger] fv[j].rule_id) ==> exists|k: int| 0 <= k < src.len() && src[k] == j,
            has_error == exists|j: int| 0 <= j < i && (#[trigger] fv[j]).severity is Error,
        decreases findings@.len() - i,
    {
        assert(fv[i as int] == findings@[i as int]@);
        if findings[i].severity().is_error() {
            has_error = true;
        }
        let ghost old_src = src;
        match finding_diagnostic(&findings[i]) {
            Some(d) => {
                proof {
                    src = src.push(i as int);
                    assert(src[src.len() - 1] == i as int);
                }
                items.push(d);
            },
            None => {},
        }
        proof {
            assert forall|j: int| 0 <= j < i + 1 && active_rule(#[trigger] fv[j].rule_id) implies exists|k: int| 0 <= k < src.len() && src[k] == j by {
                if j < i {
                    let k = choose|k: int| 0 <= k < old_src.len() && old_src[k] == j;
                    assert(src[k] == old_src[k]);
                } else {
                    assert(src[src.len() - 1] == j);
                }
            }
        }
        i = i + 1;
    }
    let status = if has_error { crate::diagnostics::types::Status::Invalid } else { crate::diagnostics::types::Status::Valid };
    let ghost uv = crate::diagnostics::set::views(items@);
    proof {
        assert(item_sources(src, uv, fv));
        assert(finding_items(uv, fv));
        assert(status == findings_status(fv));
    }
    match DiagnosticSet::try_from_unsorted(items, status) {
        Ok(set) => set,
        Err(_) => crate::diagnostics::set::singleton_set("diagnostics.registry-invalid"),
    }
}

/// Every finding of the analysis is an error.
proof fn lemma_edge_findings_errors(
    entities: Seq<EntityFields>,
    policy: PolicyView,
    res: ResolutionView,
    edges: Seq<EffectEdgeView>,
    observed: bool,
)
    ensures
        forall|k: int| 0 <= k < edges_findings(entities, policy, res, edges, observed).len()
            ==> (#[trigger] edges_findings(entities, policy, res, edges, observed)[k]).severity == Severity::Error,
    decreases edges.len(),
{
    if edges.len() > 0 {
        lemma_edge_findings_errors(entities, policy, res, edges.drop_last(), observed);
        let prev = edges_findings(entities, policy, res, edges.drop_last(), observed);
        let last = edge_findings(entities, policy, res, edges.last(), observed);
        assert forall|k: int| 0 <= k < (prev + last).len() implies (#[trigger] (prev + last)[k]).severity == Severity::Error by {
            if k >= prev.len() {
                let f0 = edge_flow(entities, policy, res, edges.last(), observed, 0);
                let t = tenant_findings(f0);
                let c = credential_findings(policy, f0.classification, f0.source);
                let g = gate_findings(f0);
                let l = low_findings(f0);
                let sk = sink_findings(policy, f0);
                assert(last[k - prev.len()].severity == Severity::Error);
            }
        }
    }
}

proof fn lemma_exposure_errors(res: ResolutionView, xs: Seq<EndpointExposure>)
    ensures
        forall|k: int| 0 <= k < spec_exposures(res, xs).len() ==> (#[trigger] spec_exposures(res, xs)[k]).severity == Severity::Error,
    decreases xs.len(),
{
    if xs.len() > 0 {
        lemma_exposure_errors(res, xs.drop_last());
    }
}

/// An unresolved subject always carries an unknown-flow finding.
proof fn lemma_unknowns_have_findings(
    entities: Seq<EntityFields>,
    policy: PolicyView,
    res: ResolutionView,
    edges: Seq<EffectEdgeView>,
    observed: bool,
)
    ensures
        edges_unknowns(res, edges).len() > 0 ==> edges_findings(entities, policy, res, edges, observed).len() > 0,
    decreases edges.len(),
{
    if edges.len() > 0 {
        lemma_unknowns_have_findings(entities, policy, res, edges.drop_last(), observed);
    }
}

/// Run the deterministic data-flow analysis over the inputs and build
/// the report. Pure: no filesystem, network, cache, process, or clock.
pub fn analyze(inputs: &Inputs) -> (r: Result<Analysis, DiagnosticSet>)
    requires
        inputs.graph.declared@.len() + inputs.graph.detected@.len() < usize::MAX,
    ensures
        match r {
            Ok(a) => {
                &&& canonical_rows(*inputs, a.report@.flows, a.report@.findings, a.report@.unknowns)
                &&& a.report@.flows.len() <= MAX_FLOWS
                &&& a.report@.findings.len() <= MAX_FINDINGS
                &&& a.report@.unknowns.len() <= MAX_UNKNOWNS
                &&& a.report@.inputs_complete == inputs_complete_of(*inputs)
                &&& a.report@.verdict == super::report::spec_verdict(a.report@.flows, a.report@.findings, inputs_complete_of(*inputs))
                &&& a.report@.report_revision == inputs.report_revision@
                &&& a.report@.project_id == inputs.project_id@
                &&& a.report@.model_ref == (inputs.model_ref.0@, inputs.model_ref.1@)
                &&& a.report@.ir_ref == (inputs.ir_ref.0@, inputs.ir_ref.1@)
                &&& a.report@.classification_ref == inputs.classification_ref@
                &&& a.report@.policy_ref == inputs.policy_ref@
                &&& a.report@.generated_by == inputs.generated_by@
                &&& a.report@.open_questions.len() == 0
                &&& forall|k: int| 0 <= k < a.report@.findings.len() ==> (#[trigger] a.report@.findings[k]).severity == Severity::Error
                &&& findings_set(a.diagnostics@, a.report@.findings)
            },
            Err(set) => refused_over_limit(*inputs, set@),
        },
{
    let mut flows: Vec<Flow> = Vec::new();
    let mut findings: Vec<Finding> = Vec::new();
    let mut unknowns: Vec<UnknownFlow> = Vec::new();
    let (count, complete_declared) = eval_edges(inputs.entities, inputs.policy, inputs.classification,
        &inputs.graph.declared, false, 0, &mut flows, &mut findings, &mut unknowns);
    let (_, complete_detected) = eval_edges(inputs.entities, inputs.policy, inputs.classification,
        &inputs.graph.detected, true, count, &mut flows, &mut findings, &mut unknowns);
    let exposures = exposure_findings(inputs.classification, inputs.endpoint_exposures);
    let ghost before_exposures = finding_views(findings@);
    let mut i: usize = 0;
    while i < exposures.len()
        invariant
            i <= exposures@.len(),
            finding_views(findings@) == before_exposures + finding_views(exposures@).subrange(0, i as int),
        decreases exposures@.len() - i,
    {
        let ghost old_views = finding_views(findings@);
        let item = exposures[i].clone();
        findings.push(item);
        assert(finding_views(findings@) =~= old_views.push(exposures@[i as int]@));
        assert(finding_views(exposures@).subrange(0, i + 1) =~= finding_views(exposures@).subrange(0, i as int).push(exposures@[i as int]@));
        assert(finding_views(findings@) =~= before_exposures + finding_views(exposures@).subrange(0, i + 1));
        i = i + 1;
    }
    proof {
        assert(finding_views(exposures@).subrange(0, exposures@.len() as int) =~= finding_views(exposures@));
        assert(flow_views(flows@) =~= raw_flows(*inputs));
        assert(finding_views(findings@) =~= raw_findings(*inputs));
        assert(unknown_views(unknowns@) =~= raw_unknowns(*inputs));
    }
    let unknowns = canonical_unknowns(unknowns);
    let flows = canonical_flows(flows);
    let findings = canonical_findings(findings);
    let ghost fl = flow_views(flows@);
    let ghost fi = finding_views(findings@);
    let ghost un = unknown_views(unknowns@);
    proof {
        assert(canonical_rows(*inputs, fl, fi, un));
    }
    if flows.len() > MAX_FLOWS {
        let set = super::diagnostic::document_invalid("flow-limit", None);
        proof {
            reveal_strlit("report-");
            reveal_strlit("flow-limit");
            reveal_strlit("report-flow-limit");
            assert("report-"@ + "flow-limit"@ =~= "report-flow-limit"@);
            assert(limit_refusal(fl, fi, un, set@));
        }
        return Err(set);
    }
    if findings.len() > MAX_FINDINGS {
        let set = super::diagnostic::document_invalid("finding-limit", None);
        proof {
            reveal_strlit("report-");
            reveal_strlit("finding-limit");
            reveal_strlit("report-finding-limit");
            assert("report-"@ + "finding-limit"@ =~= "report-finding-limit"@);
            assert(limit_refusal(fl, fi, un, set@));
        }
        return Err(set);
    }
    if unknowns.len() > MAX_UNKNOWNS {
        let set = super::diagnostic::document_invalid("unknown-limit", None);
        proof {
            reveal_strlit("report-");
            reveal_strlit("unknown-limit");
            reveal_strlit("report-unknown-limit");
            assert("report-"@ + "unknown-limit"@ =~= "report-unknown-limit"@);
            assert(limit_refusal(fl, fi, un, set@));
        }
        return Err(set);
    }
    proof {
        assert(fl.len() == flows@.len());
        assert(fi.len() == findings@.len());
        assert(un.len() == unknowns@.len());
        let d = edge_views(inputs.graph.declared@);
        let o = edge_views(inputs.graph.detected@);
        lemma_edge_findings_errors(inputs.entities@, inputs.policy@, inputs.classification@, d, false);
        lemma_edge_findings_errors(inputs.entities@, inputs.policy@, inputs.classification@, o, true);
        lemma_exposure_errors(inputs.classification@, inputs.endpoint_exposures@);
        let raw = raw_findings(*inputs);
        assert forall|k: int| 0 <= k < raw.len() implies (#[trigger] raw[k]).severity == Severity::Error by {
            let a = edges_findings(inputs.entities@, inputs.policy@, inputs.classification@, d, false);
            let b = edges_findings(inputs.entities@, inputs.policy@, inputs.classification@, o, true);
            if k < a.len() {
                assert(raw[k] == a[k]);
            } else if k < a.len() + b.len() {
                assert(raw[k] == b[k - a.len()]);
            } else {
                assert(raw[k] == spec_exposures(inputs.classification@, inputs.endpoint_exposures@)[k - a.len() - b.len()]);
            }
        }
        assert forall|k: int| 0 <= k < fi.len() implies (#[trigger] fi[k]).severity == Severity::Error by {
            assert(raw.contains(fi[k]));
        }
    }
    let diagnostics = findings_to_diagnostics(&findings);
    let report = Report::assemble(
        inputs.report_revision.to_owned(),
        inputs.project_id.clone(),
        (inputs.model_ref.0.to_owned(), inputs.model_ref.1.clone()),
        (inputs.ir_ref.0.to_owned(), inputs.ir_ref.1.clone()),
        inputs.classification_ref.clone(),
        inputs.policy_ref.clone(),
        inputs.generated_by.to_owned(),
        complete_declared && complete_detected,
        flows,
        findings,
        unknowns,
        Vec::new(),
    );
    proof {
        assert(super::report::question_views(Seq::<super::report::ReportQuestion>::empty()).len() == 0);
    }
    let a = Analysis { report, diagnostics };
    Ok(a)
}

/// Unknown is never safe: when some edge's subject does not resolve,
/// the canonical findings hold an error, so the verdict is denied
/// whatever the completeness of the inputs.
pub proof fn lemma_unknown_denies(i: Inputs, fl: Seq<FlowView>, fi: Seq<FindingView>, un: Seq<UnknownFlowView>, complete: bool)
    requires
        canonical_rows(i, fl, fi, un),
        raw_unknowns(i).len() > 0,
    ensures
        fi.len() > 0,
        super::report::spec_verdict(fl, fi, complete) == super::report::Verdict::Denied,
{
    let d = edge_views(i.graph.declared@);
    let o = edge_views(i.graph.detected@);
    let a = edges_findings(i.entities@, i.policy@, i.classification@, d, false);
    let b = edges_findings(i.entities@, i.policy@, i.classification@, o, true);
    lemma_unknowns_have_findings(i.entities@, i.policy@, i.classification@, d, false);
    lemma_unknowns_have_findings(i.entities@, i.policy@, i.classification@, o, true);
    lemma_edge_findings_errors(i.entities@, i.policy@, i.classification@, d, false);
    lemma_edge_findings_errors(i.entities@, i.policy@, i.classification@, o, true);
    let raw = raw_findings(i);
    assert(raw.len() > 0);
    assert(finding_keyed(fi, finding_key(raw[0])));
    let k = choose|k: int| 0 <= k < fi.len() && #[trigger] finding_key(fi[k]) == finding_key(raw[0]);
    assert(raw.contains(fi[k]));
    let m = choose|m: int| 0 <= m < raw.len() && raw[m] == fi[k];
    if m < a.len() {
        assert(raw[m] == a[m]);
    } else if m < a.len() + b.len() {
        assert(raw[m] == b[m - a.len()]);
    } else {
        lemma_exposure_errors(i.classification@, i.endpoint_exposures@);
        assert(raw[m] == spec_exposures(i.classification@, i.endpoint_exposures@)[m - a.len() - b.len()]);
    }
    assert(fi[k].severity == Severity::Error);
}

proof fn lemma_edges_flows_certainty(
    entities: Seq<EntityFields>,
    policy: PolicyView,
    res: ResolutionView,
    edges: Seq<EffectEdgeView>,
    observed: bool,
    base: nat,
)
    ensures
        forall|k: int| 0 <= k < edges_flows(entities, policy, res, edges, observed, base).len() ==> {
            let f = #[trigger] edges_flows(entities, policy, res, edges, observed, base)[k];
            (f.provenance == Provenance::Canonical) == (f.confidence == Confidence::High)
                && (observed ==> f.provenance == Provenance::Observed)
        },
    decreases edges.len(),
{
    if edges.len() > 0 {
        lemma_edges_flows_certainty(entities, policy, res, edges.drop_last(), observed, base);
    }
}

/// Observed evidence never promotes to canonical certainty: a flow is
/// canonical exactly when it is high-confidence, and every flow of a
/// detected edge is observed.
pub proof fn lemma_flow_certainty(i: Inputs, fl: Seq<FlowView>, fi: Seq<FindingView>, un: Seq<UnknownFlowView>)
    requires
        canonical_rows(i, fl, fi, un),
    ensures
        forall|k: int| 0 <= k < fl.len() ==>
            ((#[trigger] fl[k]).provenance == Provenance::Canonical) == (fl[k].confidence == Confidence::High),
{
    let d = edge_views(i.graph.declared@);
    let o = edge_views(i.graph.detected@);
    let a = edges_flows(i.entities@, i.policy@, i.classification@, d, false, 0);
    let b = edges_flows(i.entities@, i.policy@, i.classification@, o, true, classified_count(i.classification@, d));
    lemma_edges_flows_certainty(i.entities@, i.policy@, i.classification@, d, false, 0);
    lemma_edges_flows_certainty(i.entities@, i.policy@, i.classification@, o, true, classified_count(i.classification@, d));
    assert forall|k: int| 0 <= k < fl.len() implies
        ((#[trigger] fl[k]).provenance == Provenance::Canonical) == (fl[k].confidence == Confidence::High) by {
        let raw = raw_flows(i);
        assert(raw.contains(fl[k]));
        let m = choose|m: int| 0 <= m < raw.len() && raw[m] == fl[k];
        if m < a.len() {
            assert(raw[m] == a[m]);
        } else {
            assert(raw[m] == b[m - a.len()]);
        }
    }
}

/// For a kind whose policy row forbids crossing tenants, a flow's tenant
/// relation is `same` only into a storage write or an endpoint
/// response; into any other sink (an event publish included) it is
/// `unknown`, and never an established crossing.
pub proof fn lemma_forbidden_kind_tenant_relation(
    entities: Seq<EntityFields>,
    policy: PolicyView,
    subject: Seq<char>,
    kind: DataKind,
    sink: SinkKind,
)
    requires
        rule_of(policy.kinds, kind) is Some,
        rule_of(policy.kinds, kind)->Some_0.cross_tenant == CrossTenantMode::Forbidden,
    ensures
        spec_tenant_relation(entities, policy, subject, kind, sink) == TenantRelation::Same
            ==> (sink is StorageWrite || sink is EndpointResponse),
        !(sink is StorageWrite || sink is EndpointResponse)
            ==> spec_tenant_relation(entities, policy, subject, kind, sink) == TenantRelation::Unknown,
{
}

/// A tenant relation is never silently `same`: it is `same` only with
/// tenant-key evidence on the subject's entity, a policy row for the
/// kind that grants a tenant actor, and a tenant-scoped sink (a storage
/// write, an endpoint response, or an event publish); the analysis never
/// asserts an established crossing on its own.
pub proof fn lemma_same_tenant_needs_evidence(
    entities: Seq<EntityFields>,
    policy: PolicyView,
    subject: Seq<char>,
    kind: DataKind,
    sink: SinkKind,
)
    ensures
        spec_tenant_relation(entities, policy, subject, kind, sink) == TenantRelation::Same ==> {
            &&& partitioned(entities, subject_head(subject))
            &&& rule_of(policy.kinds, kind) is Some
            &&& tenant_actor(rule_of(policy.kinds, kind)->Some_0)
            &&& (sink is StorageWrite || sink is EndpointResponse || sink is EventPublish)
        },
        spec_tenant_relation(entities, policy, subject, kind, sink) != TenantRelation::Crossing,
{
}

proof fn lemma_edges_findings_contain(
    entities: Seq<EntityFields>,
    policy: PolicyView,
    res: ResolutionView,
    edges: Seq<EffectEdgeView>,
    observed: bool,
    k: int,
    x: FindingView,
)
    requires
        0 <= k < edges.len(),
        edge_findings(entities, policy, res, edges[k], observed).contains(x),
    ensures
        edges_findings(entities, policy, res, edges, observed).contains(x),
    decreases edges.len(),
{
    let prev = edges_findings(entities, policy, res, edges.drop_last(), observed);
    let last = edge_findings(entities, policy, res, edges.last(), observed);
    let all = edges_findings(entities, policy, res, edges, observed);
    assert(all == prev + last);
    if k == edges.len() - 1 {
        let j = choose|j: int| 0 <= j < last.len() && last[j] == x;
        assert(all[prev.len() + j] == x);
    } else {
        assert(edges.drop_last()[k] == edges[k]);
        lemma_edges_findings_contain(entities, policy, res, edges.drop_last(), observed, k, x);
        let j = choose|j: int| 0 <= j < prev.len() && prev[j] == x;
        assert(all[j] == x);
    }
}

/// A declared edge carrying a kind forbidden across tenants, under a
/// policy row that forbids crossing, into a sink other than a storage
/// write or an endpoint response (an event publish, say) has an
/// unresolved tenant relation: the analysis reports a tenant-crossing
/// finding for its subject and the verdict is denied.
pub proof fn lemma_forbidden_flow_outside_tenant_sinks_denies(
    i: Inputs,
    fl: Seq<FlowView>,
    fi: Seq<FindingView>,
    un: Seq<UnknownFlowView>,
    complete: bool,
    k: int,
    kind: DataKind,
)
    requires
        canonical_rows(i, fl, fi, un),
        0 <= k < i.graph.declared@.len(),
        edge_resolution(i.classification@, edge_views(i.graph.declared@)[k]) == Some(ResolvedKind::Classified(kind)),
        kind.spec_cross_tenant_forbidden(),
        rule_of(i.policy@.kinds, kind) is Some,
        rule_of(i.policy@.kinds, kind)->Some_0.cross_tenant == CrossTenantMode::Forbidden,
        !(spec_sink_kind_of(edge_views(i.graph.declared@)[k].kind_key) is StorageWrite
            || spec_sink_kind_of(edge_views(i.graph.declared@)[k].kind_key) is EndpointResponse),
    ensures
        finding_keyed(fi, finding_key(error_finding("dataflow.tenant-crossing"@,
            edge_views(i.graph.declared@)[k].resource, "tenant-relation-unknown"@))),
        super::report::spec_verdict(fl, fi, complete) == super::report::Verdict::Denied,
{
    let d = edge_views(i.graph.declared@);
    let o = edge_views(i.graph.detected@);
    let e = d[k];
    let sink = spec_sink_kind_of(e.kind_key);
    let target = error_finding("dataflow.tenant-crossing"@, e.resource, "tenant-relation-unknown"@);
    lemma_forbidden_kind_tenant_relation(i.entities@, i.policy@, e.resource, kind, sink);
    assert(resolved(i.classification@, e.resource) == ResolvedKind::Classified(kind));
    let f0 = edge_flow(i.entities@, i.policy@, i.classification@, e, false, 0);
    assert(f0.tenant_relation == TenantRelation::Unknown);
    assert(tenant_findings(f0) == seq![target]);
    let df = declared_findings(i.policy@, f0);
    assert(df[0] == target);
    assert(edge_findings(i.entities@, i.policy@, i.classification@, e, false) == df);
    lemma_edges_findings_contain(i.entities@, i.policy@, i.classification@, d, false, k, target);
    let a = edges_findings(i.entities@, i.policy@, i.classification@, d, false);
    let b = edges_findings(i.entities@, i.policy@, i.classification@, o, true);
    let raw = raw_findings(i);
    let j = choose|j: int| 0 <= j < a.len() && a[j] == target;
    assert(raw[j] == a[j]);
    assert(finding_keyed(fi, finding_key(raw[j])));
    lemma_edge_findings_errors(i.entities@, i.policy@, i.classification@, d, false);
    lemma_edge_findings_errors(i.entities@, i.policy@, i.classification@, o, true);
    let m = choose|m: int| 0 <= m < fi.len() && #[trigger] finding_key(fi[m]) == finding_key(raw[j]);
    assert(raw.contains(fi[m]));
    let n = choose|n: int| 0 <= n < raw.len() && raw[n] == fi[m];
    if n < a.len() {
        assert(raw[n] == a[n]);
    } else if n < a.len() + b.len() {
        assert(raw[n] == b[n - a.len()]);
    } else {
        lemma_exposure_errors(i.classification@, i.endpoint_exposures@);
        assert(raw[n] == spec_exposures(i.classification@, i.endpoint_exposures@)[n - a.len() - b.len()]);
    }
    assert(fi[m].severity == Severity::Error);
}

} // verus!
