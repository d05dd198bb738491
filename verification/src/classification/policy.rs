//! The typed classification-policy attachment: per-kind reader and
//! writer dimensions, the closed destination set, masking, retention,
//! export and encryption references, consent and cross-tenant mode,
//! declassification roles, and the non-model sink ceilings.

use vstd::prelude::*;
use vstd::string::StrSliceExecFns;
use crate::json::{JsonValue, array_of, as_text, bool_of, check_members, get, get_array, get_text,
    is_object, key_texts, member, members_within, text_of};
use crate::ids::{SemanticId, Sha256Digest, check_revision, is_root_id, slice_chars};
use crate::sorting::{Ordered, covered, equivalent, first_adjacent_pair, sort, sort_dedup, strictly_sorted};
use crate::text::{CharClass, byte_len, chars_all_in, chars_of, find_char, first_index, is_lower,
    is_lower_char, lemma_first_index, lemma_text_le_order, str_eq, str_lt, text_le, text_lt, all_in};
use super::types::{BoundedText, ContractRef, DataKind, PolicyRef, QuestionId, bounded_text_error,
    is_contract_ref, label_error, policy_ref_error};
use super::wire::{Outcome, Rejection, canonical_texts, item_texts, ir_pin, ir_pin_result, kind_member,
    model_pin, model_pin_result, reject, rejects, revision_result, text_member};

verus! {

/// The classification-policy contract family.
pub const POLICY_FAMILY: &'static str = "dev.lekalo.classification-policy";

/// The exact classification-policy contract version.
pub const POLICY_VERSION: &'static str = "0.4.0";

/// The exact classification-policy contract identity.
pub const POLICY_IDENTITY: &'static str = "dev.lekalo.classification-policy@0.4.0";

/// The exact wire discriminator of the classification-policy contract.
pub const POLICY_SCHEMA_VERSION: &'static str = "lekalo/classification-policy/v0.4.0";

/// The maximum number of reader or writer actors per rule.
pub const MAX_ACTORS: usize = 16;

/// The maximum number of destinations per rule.
pub const MAX_DESTINATIONS: usize = 16;

/// The maximum number of encryption references per rule.
pub const MAX_ENCRYPTION_REFS: usize = 8;

/// The maximum number of declassification roles per rule.
pub const MAX_DECLASSIFY_ROLES: usize = 8;

/// One closed authorization scope dimension.
#[derive(Clone, Copy, Debug, PartialEq, Eq, Structural)]
pub enum ScopeDimension {
    /// `tenant`
    Tenant,
    /// `workspace`
    Workspace,
    /// `user`
    User,
}

impl ScopeDimension {
    /// The wire spelling of each member.
    pub open spec fn spec_text(self) -> Seq<char> {
        match self {
            ScopeDimension::Tenant => "tenant"@,
            ScopeDimension::Workspace => "workspace"@,
            ScopeDimension::User => "user"@,
        }
    }

    /// The exact wire spelling.
    pub fn as_str(self) -> (r: &'static str)
        ensures
            r@ == self.spec_text(),
    {
        match self {
            ScopeDimension::Tenant => "tenant",
            ScopeDimension::Workspace => "workspace",
            ScopeDimension::User => "user",
        }
    }

    /// The member spelled `t`, if any.
    pub open spec fn spec_parse(t: Seq<char>) -> Option<ScopeDimension> {
        if t == "tenant"@ {
            Some(ScopeDimension::Tenant)
        } else if t == "workspace"@ {
            Some(ScopeDimension::Workspace)
        } else if t == "user"@ {
            Some(ScopeDimension::User)
        } else {
            None
        }
    }

    /// Parse the exact wire spelling.
    pub fn parse(text: &str) -> (r: Option<ScopeDimension>)
        ensures
            r == ScopeDimension::spec_parse(text@),
    {
        if str_eq(text, "tenant") {
            Some(ScopeDimension::Tenant)
        } else if str_eq(text, "workspace") {
            Some(ScopeDimension::Workspace)
        } else if str_eq(text, "user") {
            Some(ScopeDimension::User)
        } else {
            None
        }
    }
}

/// Every `ScopeDimension` spelling parses back to its member, and nothing
/// else parses to that member.
pub proof fn lemma_scope_dimension_round_trip(x: ScopeDimension, t: Seq<char>)
    ensures
        ScopeDimension::spec_parse(x.spec_text()) == Some(x),
        ScopeDimension::spec_parse(t) == Some(x) ==> t == x.spec_text(),
{
    reveal_strlit("tenant");
    reveal_strlit("workspace");
    reveal_strlit("user");
    assert("tenant"@.len() == 6);
    assert("workspace"@.len() == 9);
    assert("user"@.len() == 4);
}

/// One closed outbound destination kind.
#[derive(Clone, Copy, Debug, PartialEq, Eq, Structural)]
pub enum DestinationKind {
    /// `internal-service`
    InternalService,
    /// `partner-api`
    PartnerApi,
    /// `public-webhook`
    PublicWebhook,
    /// `message-bus`
    MessageBus,
    /// `email`
    Email,
    /// `storage-export`
    StorageExport,
    /// `event-broker`
    EventBroker,
}

impl DestinationKind {
    /// The wire spelling of each member.
    pub open spec fn spec_text(self) -> Seq<char> {
        match self {
            DestinationKind::InternalService => "internal-service"@,
            DestinationKind::PartnerApi => "partner-api"@,
            DestinationKind::PublicWebhook => "public-webhook"@,
            DestinationKind::MessageBus => "message-bus"@,
            DestinationKind::Email => "email"@,
            DestinationKind::StorageExport => "storage-export"@,
            DestinationKind::EventBroker => "event-broker"@,
        }
    }

    /// The exact wire spelling.
    pub fn as_str(self) -> (r: &'static str)
        ensures
            r@ == self.spec_text(),
    {
        match self {
            DestinationKind::InternalService => "internal-service",
            DestinationKind::PartnerApi => "partner-api",
            DestinationKind::PublicWebhook => "public-webhook",
            DestinationKind::MessageBus => "message-bus",
            DestinationKind::Email => "email",
            DestinationKind::StorageExport => "storage-export",
            DestinationKind::EventBroker => "event-broker",
        }
    }

    /// The member spelled `t`, if any.
    pub open spec fn spec_parse(t: Seq<char>) -> Option<DestinationKind> {
        if t == "internal-service"@ {
            Some(DestinationKind::InternalService)
        } else if t == "partner-api"@ {
            Some(DestinationKind::PartnerApi)
        } else if t == "public-webhook"@ {
            Some(DestinationKind::PublicWebhook)
        } else if t == "message-bus"@ {
            Some(DestinationKind::MessageBus)
        } else if t == "email"@ {
            Some(DestinationKind::Email)
        } else if t == "storage-export"@ {
            Some(DestinationKind::StorageExport)
        } else if t == "event-broker"@ {
            Some(DestinationKind::EventBroker)
        } else {
            None
        }
    }

    /// Parse the exact wire spelling.
    pub fn parse(text: &str) -> (r: Option<DestinationKind>)
        ensures
            r == DestinationKind::spec_parse(text@),
    {
        if str_eq(text, "internal-service") {
            Some(DestinationKind::InternalService)
        } else if str_eq(text, "partner-api") {
            Some(DestinationKind::PartnerApi)
        } else if str_eq(text, "public-webhook") {
            Some(DestinationKind::PublicWebhook)
        } else if str_eq(text, "message-bus") {
            Some(DestinationKind::MessageBus)
        } else if str_eq(text, "email") {
            Some(DestinationKind::Email)
        } else if str_eq(text, "storage-export") {
            Some(DestinationKind::StorageExport)
        } else if str_eq(text, "event-broker") {
            Some(DestinationKind::EventBroker)
        } else {
            None
        }
    }

    /// The position in canonical order: the byte order of the wire
    /// spellings.
    pub open spec fn spec_order(self) -> u8 {
        match self {
            DestinationKind::InternalService => 2,
            DestinationKind::PartnerApi => 4,
            DestinationKind::PublicWebhook => 5,
            DestinationKind::MessageBus => 3,
            DestinationKind::Email => 0,
            DestinationKind::StorageExport => 6,
            DestinationKind::EventBroker => 1,
        }
    }

    /// The position in canonical order: the byte order of the wire
    /// spellings.
    pub fn order(self) -> (r: u8)
        ensures
            r == self.spec_order(),
    {
        match self {
            DestinationKind::InternalService => 2,
            DestinationKind::PartnerApi => 4,
            DestinationKind::PublicWebhook => 5,
            DestinationKind::MessageBus => 3,
            DestinationKind::Email => 0,
            DestinationKind::StorageExport => 6,
            DestinationKind::EventBroker => 1,
        }
    }
}

/// Every `DestinationKind` spelling parses back to its member, and nothing
/// else parses to that member.
pub proof fn lemma_destination_kind_round_trip(x: DestinationKind, t: Seq<char>)
    ensures
        DestinationKind::spec_parse(x.spec_text()) == Some(x),
        DestinationKind::spec_parse(t) == Some(x) ==> t == x.spec_text(),
{
    reveal_strlit("internal-service");
    reveal_strlit("partner-api");
    reveal_strlit("public-webhook");
    reveal_strlit("message-bus");
    reveal_strlit("email");
    reveal_strlit("storage-export");
    reveal_strlit("event-broker");
    assert("internal-service"@.len() == 16);
    assert("partner-api"@.len() == 11);
    assert("public-webhook"@.len() == 14);
    assert("message-bus"@.len() == 11);
    assert("email"@.len() == 5);
    assert("storage-export"@.len() == 14);
    assert("event-broker"@.len() == 12);
    assert("partner-api"@[0] == 'p');
    assert("message-bus"@[0] == 'm');
    assert("public-webhook"@[0] == 'p');
    assert("storage-export"@[0] == 's');
}

/// One closed masking strategy.
#[derive(Clone, Copy, Debug, PartialEq, Eq, Structural)]
pub enum MaskingStrategy {
    /// `redact`
    Redact,
    /// `hash`
    Hash,
    /// `tokenize`
    Tokenize,
    /// `suppress`
    Suppress,
}

impl MaskingStrategy {
    /// The wire spelling of each member.
    pub open spec fn spec_text(self) -> Seq<char> {
        match self {
            MaskingStrategy::Redact => "redact"@,
            MaskingStrategy::Hash => "hash"@,
            MaskingStrategy::Tokenize => "tokenize"@,
            MaskingStrategy::Suppress => "suppress"@,
        }
    }

    /// The exact wire spelling.
    pub fn as_str(self) -> (r: &'static str)
        ensures
            r@ == self.spec_text(),
    {
        match self {
            MaskingStrategy::Redact => "redact",
            MaskingStrategy::Hash => "hash",
            MaskingStrategy::Tokenize => "tokenize",
            MaskingStrategy::Suppress => "suppress",
        }
    }

    /// The member spelled `t`, if any.
    pub open spec fn spec_parse(t: Seq<char>) -> Option<MaskingStrategy> {
        if t == "redact"@ {
            Some(MaskingStrategy::Redact)
        } else if t == "hash"@ {
            Some(MaskingStrategy::Hash)
        } else if t == "tokenize"@ {
            Some(MaskingStrategy::Tokenize)
        } else if t == "suppress"@ {
            Some(MaskingStrategy::Suppress)
        } else {
            None
        }
    }

    /// Parse the exact wire spelling.
    pub fn parse(text: &str) -> (r: Option<MaskingStrategy>)
        ensures
            r == MaskingStrategy::spec_parse(text@),
    {
        if str_eq(text, "redact") {
            Some(MaskingStrategy::Redact)
        } else if str_eq(text, "hash") {
            Some(MaskingStrategy::Hash)
        } else if str_eq(text, "tokenize") {
            Some(MaskingStrategy::Tokenize)
        } else if str_eq(text, "suppress") {
            Some(MaskingStrategy::Suppress)
        } else {
            None
        }
    }
}

/// Every `MaskingStrategy` spelling parses back to its member, and nothing
/// else parses to that member.
pub proof fn lemma_masking_strategy_round_trip(x: MaskingStrategy, t: Seq<char>)
    ensures
        MaskingStrategy::spec_parse(x.spec_text()) == Some(x),
        MaskingStrategy::spec_parse(t) == Some(x) ==> t == x.spec_text(),
{
    reveal_strlit("redact");
    reveal_strlit("hash");
    reveal_strlit("tokenize");
    reveal_strlit("suppress");
    assert("redact"@.len() == 6);
    assert("hash"@.len() == 4);
    assert("tokenize"@.len() == 8);
    assert("suppress"@.len() == 8);
    assert("tokenize"@[0] == 't');
    assert("suppress"@[0] == 's');
}

/// The cross-tenant mode of one kind.
#[derive(Clone, Copy, Debug, PartialEq, Eq, Structural)]
pub enum CrossTenantMode {
    /// `forbidden`
    Forbidden,
    /// `reviewed`
    Reviewed,
}

impl CrossTenantMode {
    /// The wire spelling of each member.
    pub open spec fn spec_text(self) -> Seq<char> {
        match self {
            CrossTenantMode::Forbidden => "forbidden"@,
            CrossTenantMode::Reviewed => "reviewed"@,
        }
    }

    /// The exact wire spelling.
    pub fn as_str(self) -> (r: &'static str)
        ensures
            r@ == self.spec_text(),
    {
        match self {
            CrossTenantMode::Forbidden => "forbidden",
            CrossTenantMode::Reviewed => "reviewed",
        }
    }

    /// The member spelled `t`, if any.
    pub open spec fn spec_parse(t: Seq<char>) -> Option<CrossTenantMode> {
        if t == "forbidden"@ {
            Some(CrossTenantMode::Forbidden)
        } else if t == "reviewed"@ {
            Some(CrossTenantMode::Reviewed)
        } else {
            None
        }
    }

    /// Parse the exact wire spelling.
    pub fn parse(text: &str) -> (r: Option<CrossTenantMode>)
        ensures
            r == CrossTenantMode::spec_parse(text@),
    {
        if str_eq(text, "forbidden") {
            Some(CrossTenantMode::Forbidden)
        } else if str_eq(text, "reviewed") {
            Some(CrossTenantMode::Reviewed)
        } else {
            None
        }
    }
}

/// Every `CrossTenantMode` spelling parses back to its member, and nothing
/// else parses to that member.
pub proof fn lemma_cross_tenant_mode_round_trip(x: CrossTenantMode, t: Seq<char>)
    ensures
        CrossTenantMode::spec_parse(x.spec_text()) == Some(x),
        CrossTenantMode::spec_parse(t) == Some(x) ==> t == x.spec_text(),
{
    reveal_strlit("forbidden");
    reveal_strlit("reviewed");
    assert("forbidden"@.len() == 9);
    assert("reviewed"@.len() == 8);
}

/// One non-model sink with a ceiling.
#[derive(Clone, Copy, Debug, PartialEq, Eq, Structural)]
pub enum SinkName {
    /// `logs`
    Logs,
    /// `traces`
    Traces,
    /// `contextCapsules`
    ContextCapsules,
    /// `diagnostics`
    Diagnostics,
    /// `evidence`
    Evidence,
    /// `exports`
    Exports,
}

impl SinkName {
    /// The wire spelling of each member.
    pub open spec fn spec_text(self) -> Seq<char> {
        match self {
            SinkName::Logs => "logs"@,
            SinkName::Traces => "traces"@,
            SinkName::ContextCapsules => "contextCapsules"@,
            SinkName::Diagnostics => "diagnostics"@,
            SinkName::Evidence => "evidence"@,
            SinkName::Exports => "exports"@,
        }
    }

    /// The exact wire spelling.
    pub fn as_str(self) -> (r: &'static str)
        ensures
            r@ == self.spec_text(),
    {
        match self {
            SinkName::Logs => "logs",
            SinkName::Traces => "traces",
            SinkName::ContextCapsules => "contextCapsules",
            SinkName::Diagnostics => "diagnostics",
            SinkName::Evidence => "evidence",
            SinkName::Exports => "exports",
        }
    }

    /// The member spelled `t`, if any.
    pub open spec fn spec_parse(t: Seq<char>) -> Option<SinkName> {
        if t == "logs"@ {
            Some(SinkName::Logs)
        } else if t == "traces"@ {
            Some(SinkName::Traces)
        } else if t == "contextCapsules"@ {
            Some(SinkName::ContextCapsules)
        } else if t == "diagnostics"@ {
            Some(SinkName::Diagnostics)
        } else if t == "evidence"@ {
            Some(SinkName::Evidence)
        } else if t == "exports"@ {
            Some(SinkName::Exports)
        } else {
            None
        }
    }

    /// Parse the exact wire spelling.
    pub fn parse(text: &str) -> (r: Option<SinkName>)
        ensures
            r == SinkName::spec_parse(text@),
    {
        if str_eq(text, "logs") {
            Some(SinkName::Logs)
        } else if str_eq(text, "traces") {
            Some(SinkName::Traces)
        } else if str_eq(text, "contextCapsules") {
            Some(SinkName::ContextCapsules)
        } else if str_eq(text, "diagnostics") {
            Some(SinkName::Diagnostics)
        } else if str_eq(text, "evidence") {
            Some(SinkName::Evidence)
        } else if str_eq(text, "exports") {
            Some(SinkName::Exports)
        } else {
            None
        }
    }

    /// The position of the sink in the closed sink order.
    pub open spec fn spec_index(self) -> int {
        match self {
            SinkName::Logs => 0,
            SinkName::Traces => 1,
            SinkName::ContextCapsules => 2,
            SinkName::Diagnostics => 3,
            SinkName::Evidence => 4,
            SinkName::Exports => 5,
        }
    }
}

/// Every `SinkName` spelling parses back to its member, and nothing
/// else parses to that member.
pub proof fn lemma_sink_name_round_trip(x: SinkName, t: Seq<char>)
    ensures
        SinkName::spec_parse(x.spec_text()) == Some(x),
        SinkName::spec_parse(t) == Some(x) ==> t == x.spec_text(),
{
    reveal_strlit("logs");
    reveal_strlit("traces");
    reveal_strlit("contextCapsules");
    reveal_strlit("diagnostics");
    reveal_strlit("evidence");
    reveal_strlit("exports");
    assert("logs"@.len() == 4);
    assert("traces"@.len() == 6);
    assert("contextCapsules"@.len() == 15);
    assert("diagnostics"@.len() == 11);
    assert("evidence"@.len() == 8);
    assert("exports"@.len() == 7);
}

/// Every sink, in the closed order.
pub open spec fn all_sinks() -> Seq<SinkName> {
    seq![SinkName::Logs, SinkName::Traces, SinkName::ContextCapsules, SinkName::Diagnostics,
        SinkName::Evidence, SinkName::Exports]
}

/// Every sink, in the closed order.
pub fn sink_names() -> (r: Vec<SinkName>)
    ensures
        r@ == all_sinks(),
{
    let mut r: Vec<SinkName> = Vec::new();
    r.push(SinkName::Logs);
    r.push(SinkName::Traces);
    r.push(SinkName::ContextCapsules);
    r.push(SinkName::Diagnostics);
    r.push(SinkName::Evidence);
    r.push(SinkName::Exports);
    assert(r@ =~= all_sinks());
    r
}

// ---------------------------------------------------------------------
// Actors

/// One scope token `[a-z][a-z0-9_-]*` of 1 to 64 characters.
pub open spec fn is_scope(t: Seq<char>) -> bool {
    1 <= t.len() <= 64 && is_lower(t[0]) && all_in(t, 1, CharClass::LowerDigitUnderscoreHyphen)
}

/// The actor grammar: a scope dimension, optionally `:` and a scope.
pub open spec fn is_actor(s: Seq<char>) -> bool {
    let c = first_index(s, ':');
    &&& 1 <= byte_len(s) <= 129
    &&& ScopeDimension::spec_parse(s.subrange(0, c)) is Some
    &&& (c < s.len() ==> is_scope(s.subrange(c + 1, s.len() as int)))
}

/// One authorization actor reference: `dimension` or `dimension:scope`.
#[derive(Debug, PartialEq, Eq)]
pub struct ActorRef(String);

impl Clone for ActorRef {
    fn clone(&self) -> (r: ActorRef)
        ensures
            r@ == self@,
    {
        proof { use_type_invariant(self); }
        ActorRef(self.0.clone())
    }
}

impl View for ActorRef {
    type V = Seq<char>;

    closed spec fn view(&self) -> Seq<char> {
        self.0@
    }
}

fn string_of_chars_slice(text: &str, from: usize, to: usize) -> (r: String)
    requires
        from <= to <= text@.len(),
    ensures
        r@ == text@.subrange(from as int, to as int),
{
    text.substring_char(from, to).to_owned()
}

impl ActorRef {
    #[verifier::type_invariant]
    spec fn well_formed(self) -> bool {
        is_actor(self.0@)
    }

    /// Validate one actor reference.
    pub fn parse(text: &str) -> (r: Option<ActorRef>)
        ensures
            r is Some <==> is_actor(text@),
            r matches Some(a) ==> a@ == text@,
    {
        let n = text.as_bytes().len();
        if n < 1 || n > 129 {
            return None;
        }
        let s = chars_of(text);
        let c = find_char(&s, ':');
        proof { lemma_first_index(s@, ':'); }
        let dimension = slice_chars(&s, 0, c);
        let dimension_text = string_of_chars_slice(text, 0, c);
        if ScopeDimension::parse(dimension_text.as_str()).is_none() {
            return None;
        }
        if c < s.len() {
            let scope = slice_chars(&s, c + 1, s.len());
            if scope.len() < 1 || scope.len() > 64 || !is_lower_char(scope[0]) || !chars_all_in(&scope, 1, CharClass::LowerDigitUnderscoreHyphen) {
                return None;
            }
        }
        Some(ActorRef(text.to_owned()))
    }

    /// The scope dimension.
    pub fn dimension(&self) -> (r: ScopeDimension)
        ensures
            Some(r) == ScopeDimension::spec_parse(self@.subrange(0, first_index(self@, ':'))),
    {
        proof { use_type_invariant(self); }
        let s = chars_of(self.0.as_str());
        let c = find_char(&s, ':');
        proof { lemma_first_index(s@, ':'); }
        let head = string_of_chars_slice(self.0.as_str(), 0, c);
        match ScopeDimension::parse(head.as_str()) {
            Some(d) => d,
            None => ScopeDimension::Tenant,
        }
    }

    /// The scope after `:`, if any.
    pub fn scope(&self) -> (r: Option<String>)
        ensures
            match r {
                Some(t) => first_index(self@, ':') < self@.len() && t@ == self@.subrange(first_index(self@, ':') + 1, self@.len() as int),
                None => first_index(self@, ':') >= self@.len(),
            },
    {
        let s = chars_of(self.0.as_str());
        let c = find_char(&s, ':');
        proof { lemma_first_index(s@, ':'); }
        if c < s.len() {
            Some(string_of_chars_slice(self.0.as_str(), c + 1, s.len()))
        } else {
            None
        }
    }

    /// The exact validated text.
    pub fn as_str(&self) -> (r: &str)
        ensures
            r@ == self@,
    {
        self.0.as_str()
    }
}

// ---------------------------------------------------------------------
// Canonical text lists

/// A token kept by its exact text, in byte order.
pub trait TextToken: Ordered {
    /// The exact text.
    spec fn text(&self) -> Seq<char>;

    /// The token grammar.
    spec fn valid_text(t: Seq<char>) -> bool;

    /// The order is byte order of the texts.
    proof fn lemma_le_is_text(a: &Self, b: &Self)
        ensures
            a.spec_le(b) == text_le(a.text(), b.text()),
    ;

    /// Validate one token.
    fn from_text(t: &str) -> (r: Option<Self>)
        ensures
            r is Some <==> Self::valid_text(t@),
            r matches Some(x) ==> x.text() == t@,
    ;
}

impl Ordered for ActorRef {
    open spec fn spec_le(&self, other: &Self) -> bool {
        text_le(self@, other@)
    }

    proof fn lemma_total(a: &Self, b: &Self) {
        lemma_text_le_order(a@, b@, a@);
    }

    proof fn lemma_transitive(a: &Self, b: &Self, c: &Self) {
        lemma_text_le_order(a@, b@, c@);
    }

    fn le(&self, other: &Self) -> (r: bool) {
        !str_lt(other.as_str(), self.as_str())
    }
}

impl TextToken for ActorRef {
    open spec fn text(&self) -> Seq<char> {
        self@
    }

    open spec fn valid_text(t: Seq<char>) -> bool {
        is_actor(t)
    }

    proof fn lemma_le_is_text(a: &Self, b: &Self) {
    }

    fn from_text(t: &str) -> (r: Option<Self>) {
        ActorRef::parse(t)
    }
}

impl Ordered for ContractRef {
    open spec fn spec_le(&self, other: &Self) -> bool {
        text_le(self@, other@)
    }

    proof fn lemma_total(a: &Self, b: &Self) {
        lemma_text_le_order(a@, b@, a@);
    }

    proof fn lemma_transitive(a: &Self, b: &Self, c: &Self) {
        lemma_text_le_order(a@, b@, c@);
    }

    fn le(&self, other: &Self) -> (r: bool) {
        !str_lt(other.as_str(), self.as_str())
    }
}

impl TextToken for ContractRef {
    open spec fn text(&self) -> Seq<char> {
        self@
    }

    open spec fn valid_text(t: Seq<char>) -> bool {
        is_contract_ref(t)
    }

    proof fn lemma_le_is_text(a: &Self, b: &Self) {
    }

    fn from_text(t: &str) -> (r: Option<Self>) {
        match ContractRef::parse(t) {
            Ok(x) => Some(x),
            Err(_) => None,
        }
    }
}

/// One declassification role `[a-z][a-z0-9_-]*`, 1 to 64 bytes.
pub open spec fn is_role(t: Seq<char>) -> bool {
    1 <= byte_len(t) <= 64 && t.len() >= 1 && is_lower(t[0]) && all_in(t, 1, CharClass::LowerDigitUnderscoreHyphen)
}

/// One declassification role name.
#[derive(Debug, PartialEq, Eq)]
pub struct RoleName(String);

impl View for RoleName {
    type V = Seq<char>;

    closed spec fn view(&self) -> Seq<char> {
        self.0@
    }
}

impl Ordered for RoleName {
    open spec fn spec_le(&self, other: &Self) -> bool {
        text_le(self@, other@)
    }

    proof fn lemma_total(a: &Self, b: &Self) {
        lemma_text_le_order(a@, b@, a@);
    }

    proof fn lemma_transitive(a: &Self, b: &Self, c: &Self) {
        lemma_text_le_order(a@, b@, c@);
    }

    fn le(&self, other: &Self) -> (r: bool) {
        !str_lt(other.0.as_str(), self.0.as_str())
    }
}

impl TextToken for RoleName {
    open spec fn text(&self) -> Seq<char> {
        self@
    }

    open spec fn valid_text(t: Seq<char>) -> bool {
        is_role(t)
    }

    proof fn lemma_le_is_text(a: &Self, b: &Self) {
    }

    fn from_text(t: &str) -> (r: Option<Self>) {
        let n = t.as_bytes().len();
        if n < 1 || n > 64 {
            return None;
        }
        let s = chars_of(t);
        if s.len() < 1 || !is_lower_char(s[0]) || !chars_all_in(&s, 1, CharClass::LowerDigitUnderscoreHyphen) {
            return None;
        }
        Some(RoleName(t.to_owned()))
    }
}

/// The texts of a list of tokens.
pub open spec fn token_texts<T: TextToken>(s: Seq<T>) -> Seq<Seq<char>> {
    s.map_values(|x: T| x.text())
}

/// Whether some item is not a valid token of `T`.
pub open spec fn has_bad_token<T: TextToken>(items: Seq<JsonValue>) -> bool {
    exists|i: int| 0 <= i < items.len() && (text_of(Some(#[trigger] items[i])) is None
        || !T::valid_text(text_of(Some(items[i])).unwrap()))
}

/// Parse a token array: every item a token, at most `limit`, brought
/// into byte order with duplicates removed.
pub fn token_list<T: TextToken>(items: &Vec<JsonValue>, limit: usize, detail: &str) -> (r: Result<Vec<T>, Rejection>)
    ensures
        if items@.len() > limit || has_bad_token::<T>(items@) {
            r matches Err(e) && rejects(e, detail@)
        } else {
            r matches Ok(out) && canonical_texts(token_texts(out@), item_texts(items@))
        },
{
    if items.len() > limit {
        return Err(reject(detail));
    }
    let mut parsed: Vec<T> = Vec::new();
    let mut i: usize = 0;
    while i < items.len()
        invariant
            i <= items@.len(),
            parsed@.len() == i,
            forall|j: int| 0 <= j < i ==> text_of(Some(#[trigger] items@[j])) is Some
                && T::valid_text(text_of(Some(items@[j])).unwrap()),
            forall|j: int| 0 <= j < i ==> (#[trigger] parsed@[j]).text() == text_of(Some(items@[j])).unwrap(),
        decreases items@.len() - i,
    {
        let text = match as_text(&items[i]) {
            Some(t) => t,
            None => return Err(reject(detail)),
        };
        match T::from_text(text) {
            Some(x) => parsed.push(x),
            None => return Err(reject(detail)),
        }
        i = i + 1;
    }
    let ghost parsed_view = parsed@;
    let out = sort_dedup(parsed);
    proof {
        let texts = item_texts(items@);
        let lv = token_texts(out@);
        assert(!has_bad_token::<T>(items@));
        assert forall|a: int, b: int| 0 <= a < b < lv.len() implies text_lt(#[trigger] lv[a], #[trigger] lv[b]) by {
            assert(out@[a].spec_le(&out@[b]) && !out@[b].spec_le(&out@[a]));
            T::lemma_le_is_text(&out@[a], &out@[b]);
            T::lemma_le_is_text(&out@[b], &out@[a]);
            crate::text::lemma_text_lt_total(lv[a], lv[b]);
        }
        assert forall|a: int| 0 <= a < lv.len() implies texts.contains(#[trigger] lv[a]) by {
            assert(parsed_view.contains(out@[a]));
            let k = choose|k: int| 0 <= k < parsed_view.len() && parsed_view[k] == out@[a];
            assert(texts[k] == lv[a]);
        }
        assert forall|b: int| 0 <= b < texts.len() implies lv.contains(#[trigger] texts[b]) by {
            assert(covered(out@, parsed_view[b]));
            let a = choose|a: int| 0 <= a < out@.len() && #[trigger] equivalent(out@[a], parsed_view[b]);
            T::lemma_le_is_text(&out@[a], &parsed_view[b]);
            T::lemma_le_is_text(&parsed_view[b], &out@[a]);
            lemma_text_le_order(out@[a].text(), parsed_view[b].text(), out@[a].text());
            assert(lv[a] == texts[b]);
        }
    }
    Ok(out)
}


// ---------------------------------------------------------------------
// Destinations

impl Ordered for DestinationKind {
    open spec fn spec_le(&self, other: &Self) -> bool {
        self.spec_order() <= other.spec_order()
    }

    proof fn lemma_total(a: &Self, b: &Self) {
    }

    proof fn lemma_transitive(a: &Self, b: &Self, c: &Self) {
    }

    fn le(&self, other: &Self) -> (r: bool) {
        self.order() <= other.order()
    }
}

/// Canonical destination order is the byte order of the wire
/// spellings.
pub proof fn lemma_destination_order_is_byte_order(a: DestinationKind, b: DestinationKind)
    ensures
        a.spec_order() < b.spec_order() ==> crate::text::text_lt(a.spec_text(), b.spec_text()),
{
    reveal_strlit("internal-service");
    reveal_strlit("partner-api");
    reveal_strlit("public-webhook");
    reveal_strlit("message-bus");
    reveal_strlit("email");
    reveal_strlit("storage-export");
    reveal_strlit("event-broker");
    reveal_with_fuel(crate::text::text_lt, 3);
    let x = a.spec_text();
    let y = b.spec_text();
    assert(x.len() > 2 && y.len() > 2);
    assert(x.drop_first()[0] == x[1] && y.drop_first()[0] == y[1]);
}

/// The destination an item spells, if any.
pub open spec fn destination_of(v: JsonValue) -> Option<DestinationKind> {
    match text_of(Some(v)) {
        Some(t) => DestinationKind::spec_parse(t),
        None => None,
    }
}

/// Whether some item is not a destination.
pub open spec fn has_bad_destination(items: Seq<JsonValue>) -> bool {
    exists|i: int| 0 <= i < items.len() && destination_of(#[trigger] items[i]) is None
}

/// `d` is spelled by some item.
pub open spec fn destination_spelled(items: Seq<JsonValue>, d: DestinationKind) -> bool {
    exists|k: int| 0 <= k < items.len() && #[trigger] destination_of(items[k]) == Some(d)
}

/// Canonical destinations: strictly increasing and the same set as
/// the items spell.
pub open spec fn destinations_canonical(items: Seq<JsonValue>, ds: Seq<DestinationKind>) -> bool {
    &&& forall|i: int, j: int| 0 <= i < j < ds.len() ==> (#[trigger] ds[i]).spec_order() < (#[trigger] ds[j]).spec_order()
    &&& forall|i: int| 0 <= i < ds.len() ==> destination_spelled(items, #[trigger] ds[i])
    &&& forall|k: int| 0 <= k < items.len() ==> ds.contains(#[trigger] destination_of(items[k]).unwrap())
}

fn destinations(items: &Vec<JsonValue>) -> (r: Result<Vec<DestinationKind>, Rejection>)
    ensures
        if items@.len() > 16 || has_bad_destination(items@) {
            r matches Err(e) && rejects(e, "destinations"@)
        } else {
            r matches Ok(ds) && destinations_canonical(items@, ds@)
        },
{
    if items.len() > 16 {
        return Err(reject("destinations"));
    }
    let mut parsed: Vec<DestinationKind> = Vec::new();
    let mut i: usize = 0;
    while i < items.len()
        invariant
            i <= items@.len(),
            parsed@.len() == i,
            forall|j: int| 0 <= j < i ==> destination_of(#[trigger] items@[j]) == Some(parsed@[j]),
        decreases items@.len() - i,
    {
        let d = match as_text(&items[i]) {
            Some(t) => match DestinationKind::parse(t) {
                Some(d) => d,
                None => return Err(reject("destinations")),
            },
            None => return Err(reject("destinations")),
        };
        parsed.push(d);
        i = i + 1;
    }
    let ghost parsed_view = parsed@;
    let out = sort_dedup(parsed);
    proof {
        assert(!has_bad_destination(items@)) by {
            if has_bad_destination(items@) {
                let i = choose|i: int| 0 <= i < items@.len() && destination_of(#[trigger] items@[i]) is None;
                assert(destination_of(items@[i]) == Some(parsed_view[i]));
            }
        }
        assert forall|a: int, b: int| 0 <= a < b < out@.len() implies (#[trigger] out@[a]).spec_order() < (#[trigger] out@[b]).spec_order() by {
            assert(out@[a].spec_le(&out@[b]) && !out@[b].spec_le(&out@[a]));
        }
        assert forall|a: int| 0 <= a < out@.len() implies destination_spelled(items@, #[trigger] out@[a]) by {
            assert(parsed_view.contains(out@[a]));
            let k = choose|k: int| 0 <= k < parsed_view.len() && parsed_view[k] == out@[a];
            assert(destination_of(items@[k]) == Some(out@[a]));
        }
        assert forall|k: int| 0 <= k < items@.len() implies out@.contains(#[trigger] destination_of(items@[k]).unwrap()) by {
            assert(covered(out@, parsed_view[k]));
            let a = choose|a: int| 0 <= a < out@.len() && #[trigger] equivalent(out@[a], parsed_view[k]);
            assert(out@[a] == parsed_view[k]);
        }
    }
    Ok(out)
}

// ---------------------------------------------------------------------
// Kind rules

/// The masking of one kind.
#[derive(Clone, Debug, PartialEq, Eq)]
pub struct Masking {
    strategy: MaskingStrategy,
    policy_ref: PolicyRef,
}

impl View for Masking {
    type V = (MaskingStrategy, Seq<char>);

    closed spec fn view(&self) -> (MaskingStrategy, Seq<char>) {
        (self.strategy, self.policy_ref@)
    }
}

impl Masking {
    /// The masking strategy.
    pub fn strategy(&self) -> (r: MaskingStrategy)
        ensures
            r == self@.0,
    {
        self.strategy
    }

    /// The masking policy document.
    pub fn policy_ref(&self) -> (r: &PolicyRef)
        ensures
            r@ == self@.1,
    {
        &self.policy_ref
    }
}

/// The per-kind governance rule.
#[derive(Debug)]
pub struct KindRule {
    kind: DataKind,
    readers: Vec<ActorRef>,
    writers: Vec<ActorRef>,
    destinations: Vec<DestinationKind>,
    masking: Masking,
    retention_ref: Option<PolicyRef>,
    export_ref: Option<PolicyRef>,
    encryption_refs: Vec<ContractRef>,
    consent_required: bool,
    cross_tenant: CrossTenantMode,
    declassify_roles: Vec<RoleName>,
}

/// The contract-level content of a kind rule.
pub struct KindRuleView {
    pub kind: DataKind,
    pub readers: Seq<Seq<char>>,
    pub writers: Seq<Seq<char>>,
    pub destinations: Seq<DestinationKind>,
    pub masking: (MaskingStrategy, Seq<char>),
    pub retention_ref: Option<Seq<char>>,
    pub export_ref: Option<Seq<char>>,
    pub encryption_refs: Seq<Seq<char>>,
    pub consent_required: bool,
    pub cross_tenant: CrossTenantMode,
    pub declassify_roles: Seq<Seq<char>>,
}

/// The view of an optional policy reference.
pub open spec fn opt_ref(r: Option<PolicyRef>) -> Option<Seq<char>> {
    match r {
        Some(x) => Some(x@),
        None => None,
    }
}

impl View for KindRule {
    type V = KindRuleView;

    closed spec fn view(&self) -> KindRuleView {
        KindRuleView {
            kind: self.kind,
            readers: token_texts(self.readers@),
            writers: token_texts(self.writers@),
            destinations: self.destinations@,
            masking: self.masking@,
            retention_ref: opt_ref(self.retention_ref),
            export_ref: opt_ref(self.export_ref),
            encryption_refs: token_texts(self.encryption_refs@),
            consent_required: self.consent_required,
            cross_tenant: self.cross_tenant,
            declassify_roles: token_texts(self.declassify_roles@),
        }
    }
}

impl KindRule {
    /// The governed kind.
    pub fn kind(&self) -> (r: DataKind)
        ensures
            r == self@.kind,
    {
        self.kind
    }

    /// The readers, in byte order.
    pub fn readers(&self) -> (r: &[ActorRef])
        ensures
            token_texts(r@) == self@.readers,
    {
        self.readers.as_slice()
    }

    /// The writers, in byte order.
    pub fn writers(&self) -> (r: &[ActorRef])
        ensures
            token_texts(r@) == self@.writers,
    {
        self.writers.as_slice()
    }

    /// The allowed destinations, in declaration order.
    pub fn destinations(&self) -> (r: &[DestinationKind])
        ensures
            r@ == self@.destinations,
    {
        self.destinations.as_slice()
    }

    /// The masking rule.
    pub fn masking(&self) -> (r: &Masking)
        ensures
            r@ == self@.masking,
    {
        &self.masking
    }

    /// The optional retention policy.
    pub fn retention_ref(&self) -> (r: Option<&PolicyRef>)
        ensures
            match r {
                Some(x) => self@.retention_ref == Some(x@),
                None => self@.retention_ref is None,
            },
    {
        match &self.retention_ref {
            Some(x) => Some(x),
            None => None,
        }
    }

    /// The optional export policy.
    pub fn export_ref(&self) -> (r: Option<&PolicyRef>)
        ensures
            match r {
                Some(x) => self@.export_ref == Some(x@),
                None => self@.export_ref is None,
            },
    {
        match &self.export_ref {
            Some(x) => Some(x),
            None => None,
        }
    }

    /// The encryption contracts, in byte order.
    pub fn encryption_refs(&self) -> (r: &[ContractRef])
        ensures
            token_texts(r@) == self@.encryption_refs,
    {
        self.encryption_refs.as_slice()
    }

    /// Whether consent is required.
    pub fn consent_required(&self) -> (r: bool)
        ensures
            r == self@.consent_required,
    {
        self.consent_required
    }

    /// The cross-tenant mode.
    pub fn cross_tenant(&self) -> (r: CrossTenantMode)
        ensures
            r == self@.cross_tenant,
    {
        self.cross_tenant
    }

    /// The roles that may declassify, in byte order.
    pub fn declassify_roles(&self) -> (r: Vec<String>)
        ensures
            r@.map_values(|x: String| x@) == self@.declassify_roles,
    {
        let mut out: Vec<String> = Vec::new();
        let mut i: usize = 0;
        while i < self.declassify_roles.len()
            invariant
                i <= self.declassify_roles@.len(),
                out@.map_values(|x: String| x@) == token_texts(self.declassify_roles@.subrange(0, i as int)),
            decreases self.declassify_roles@.len() - i,
        {
            let ghost before = out@;
            out.push(self.declassify_roles[i].0.clone());
            assert(out@.map_values(|x: String| x@) =~= before.map_values(|x: String| x@).push(self.declassify_roles@[i as int]@));
            assert(token_texts(self.declassify_roles@.subrange(0, i + 1)) =~= token_texts(self.declassify_roles@.subrange(0, i as int)).push(self.declassify_roles@[i as int]@));
            i = i + 1;
        }
        assert(self.declassify_roles@.subrange(0, self.declassify_roles@.len() as int) =~= self.declassify_roles@);
        out
    }
}

/// The closed kind-rule member set.
pub open spec fn kind_rule_keys() -> Seq<Seq<char>> {
    seq!["kind"@, "readers"@, "writers"@, "destinations"@, "masking"@, "retentionRef"@, "exportRef"@,
        "encryptionRefs"@, "consentRequired"@, "crossTenant"@, "declassifyRoles"@]
}

fn kind_rule_key_list() -> (r: Vec<&'static str>)
    ensures
        key_texts(r@) == kind_rule_keys(),
{
    let mut r: Vec<&'static str> = Vec::new();
    r.push("kind");
    r.push("readers");
    r.push("writers");
    r.push("destinations");
    r.push("masking");
    r.push("retentionRef");
    r.push("exportRef");
    r.push("encryptionRefs");
    r.push("consentRequired");
    r.push("crossTenant");
    r.push("declassifyRoles");
    assert(key_texts(r@) =~= kind_rule_keys());
    r
}

/// The closed masking member set.
pub open spec fn masking_keys() -> Seq<Seq<char>> {
    seq!["strategy"@, "policyRef"@]
}

fn masking_key_list() -> (r: Vec<&'static str>)
    ensures
        key_texts(r@) == masking_keys(),
{
    let mut r: Vec<&'static str> = Vec::new();
    r.push("strategy");
    r.push("policyRef");
    assert(key_texts(r@) =~= masking_keys());
    r
}

/// A required actor list: an array of at most 16 actors.
pub open spec fn actors_error(m: Option<JsonValue>) -> bool {
    match array_of(m) {
        None => true,
        Some(items) => items.len() > 16 || has_bad_token::<ActorRef>(items),
    }
}

/// An optional token list of at most `limit` members.
pub open spec fn optional_list_error<T: TextToken>(m: Option<JsonValue>, limit: int) -> bool {
    match m {
        None => false,
        Some(x) => match array_of(Some(x)) {
            None => true,
            Some(items) => items.len() > limit || has_bad_token::<T>(items),
        },
    }
}

/// The canonical texts of an optional token list.
pub open spec fn optional_list_match(m: Option<JsonValue>, out: Seq<Seq<char>>) -> bool {
    match array_of(m) {
        None => out.len() == 0,
        Some(items) => canonical_texts(out, item_texts(items)),
    }
}

/// An optional policy reference member.
pub open spec fn policy_ref_member_error(v: JsonValue, key: Seq<char>) -> bool {
    member(v, key) is Some && (text_member(v, key) is None || policy_ref_error(text_member(v, key).unwrap()) is Some)
}

/// The masking object.
pub open spec fn masking_result(m: Option<JsonValue>) -> Result<(MaskingStrategy, Seq<char>), Seq<char>> {
    match m {
        None => Err("masking"@),
        Some(x) => if !is_object(x) {
            Err("masking"@)
        } else if !members_within(x, masking_keys()) {
            Err("unknown-field"@)
        } else if text_member(x, "strategy"@) is None || MaskingStrategy::spec_parse(text_member(x, "strategy"@).unwrap()) is None {
            Err("masking"@)
        } else if text_member(x, "policyRef"@) is None || policy_ref_error(text_member(x, "policyRef"@).unwrap()) is Some {
            Err("masking"@)
        } else {
            Ok((MaskingStrategy::spec_parse(text_member(x, "strategy"@).unwrap()).unwrap(), text_member(x, "policyRef"@).unwrap()))
        },
    }
}

/// The cross-tenant mode of a rule: declared, or the kind's default.
pub open spec fn cross_tenant_of(v: JsonValue, kind: DataKind) -> Option<CrossTenantMode> {
    match member(v, "crossTenant"@) {
        None => Some(if kind.spec_cross_tenant_forbidden() { CrossTenantMode::Forbidden } else { CrossTenantMode::Reviewed }),
        Some(_) => match text_member(v, "crossTenant"@) {
            Some(t) => CrossTenantMode::spec_parse(t),
            None => None,
        },
    }
}

/// Why one kind rule is refused, if it is.
pub open spec fn kind_rule_error(v: JsonValue) -> Option<Seq<char>> {
    if !is_object(v) {
        Some("kind-rule-shape"@)
    } else if !members_within(v, kind_rule_keys()) {
        Some("unknown-field"@)
    } else if kind_member(v, "kind"@) is None {
        Some("kind"@)
    } else if actors_error(member(v, "readers"@)) || actors_error(member(v, "writers"@)) {
        Some("actor-list"@)
    } else if member(v, "destinations"@) is Some && (array_of(member(v, "destinations"@)) is None
        || array_of(member(v, "destinations"@)).unwrap().len() > 16 || has_bad_destination(array_of(member(v, "destinations"@)).unwrap())) {
        Some("destinations"@)
    } else if masking_result(member(v, "masking"@)) is Err {
        Some(masking_result(member(v, "masking"@))->Err_0)
    } else if policy_ref_member_error(v, "retentionRef"@) || policy_ref_member_error(v, "exportRef"@) {
        Some("policy-ref"@)
    } else if optional_list_error::<ContractRef>(member(v, "encryptionRefs"@), 8) {
        Some("encryption-refs"@)
    } else if member(v, "consentRequired"@) is Some && bool_of(member(v, "consentRequired"@)) is None {
        Some("consent-required"@)
    } else if cross_tenant_of(v, kind_member(v, "kind"@).unwrap()) is None {
        Some("cross-tenant"@)
    } else if optional_list_error::<RoleName>(member(v, "declassifyRoles"@), 8) {
        Some("declassify-roles"@)
    } else {
        None
    }
}

/// The kind, destinations, and declassification roles a valid entry
/// declares.
#[verifier::opaque]
pub open spec fn rule_core_matches(v: JsonValue, r: KindRuleView) -> bool {
    &&& r.kind == kind_member(v, "kind"@).unwrap()
    &&& (match array_of(member(v, "destinations"@)) {
        None => r.destinations.len() == 0,
        Some(items) => destinations_canonical(items, r.destinations),
    })
    &&& optional_list_match(member(v, "declassifyRoles"@), r.declassify_roles)
}

/// The actors, masking, references, consent, and cross-tenant mode a
/// valid entry declares.
#[verifier::opaque]
pub open spec fn rule_rest_matches(v: JsonValue, r: KindRuleView) -> bool {
    &&& canonical_texts(r.readers, item_texts(array_of(member(v, "readers"@)).unwrap()))
    &&& canonical_texts(r.writers, item_texts(array_of(member(v, "writers"@)).unwrap()))
    &&& r.masking == masking_result(member(v, "masking"@))->Ok_0
    &&& r.retention_ref == text_member(v, "retentionRef"@)
    &&& r.export_ref == text_member(v, "exportRef"@)
    &&& optional_list_match(member(v, "encryptionRefs"@), r.encryption_refs)
    &&& r.consent_required == match bool_of(member(v, "consentRequired"@)) {
        Some(b) => b,
        None => false,
    }
    &&& Some(r.cross_tenant) == cross_tenant_of(v, r.kind)
}

/// The rule a valid entry declares.
pub open spec fn kind_rule_matches(v: JsonValue, r: KindRuleView) -> bool {
    rule_core_matches(v, r) && rule_rest_matches(v, r)
}

fn actor_list(v: &JsonValue, key: &str) -> (r: Result<Vec<ActorRef>, Rejection>)
    ensures
        if actors_error(member(*v, key@)) {
            r matches Err(e) && rejects(e, "actor-list"@)
        } else {
            r matches Ok(out) && canonical_texts(token_texts(out@), item_texts(array_of(member(*v, key@)).unwrap()))
        },
{
    match get_array(v, key) {
        Some(items) => token_list::<ActorRef>(items, 16, "actor-list"),
        None => Err(reject("actor-list")),
    }
}

fn optional_list<T: TextToken>(v: &JsonValue, key: &str, limit: usize, detail: &str) -> (r: Result<Vec<T>, Rejection>)
    ensures
        if optional_list_error::<T>(member(*v, key@), limit as int) {
            r matches Err(e) && rejects(e, detail@)
        } else {
            r matches Ok(out) && optional_list_match(member(*v, key@), token_texts(out@))
        },
{
    match get(v, key) {
        None => {
            let out: Vec<T> = Vec::new();
            assert(token_texts(out@) =~= Seq::<Seq<char>>::empty());
            Ok(out)
        },
        Some(JsonValue::Array(items)) => token_list::<T>(items, limit, detail),
        Some(_) => Err(reject(detail)),
    }
}

fn optional_policy_ref(v: &JsonValue, key: &str) -> (r: Result<Option<PolicyRef>, Rejection>)
    ensures
        if policy_ref_member_error(*v, key@) {
            r matches Err(e) && rejects(e, "policy-ref"@)
        } else {
            r matches Ok(x) && opt_ref(x) == text_member(*v, key@)
        },
{
    match get(v, key) {
        None => Ok(None),
        Some(JsonValue::Text(t)) => match PolicyRef::parse(t.as_str()) {
            Ok(x) => Ok(Some(x)),
            Err(_) => Err(reject("policy-ref")),
        },
        Some(_) => Err(reject("policy-ref")),
    }
}

fn masking(m: Option<&JsonValue>) -> (r: Result<Masking, Rejection>)
    ensures
        match masking_result(match m { Some(x) => Some(*x), None => None }) {
            Ok(x) => r matches Ok(k) && k@ == x,
            Err(d) => r matches Err(e) && rejects(e, d),
        },
{
    let x = match m {
        Some(x) => x,
        None => return Err(reject("masking")),
    };
    match x {
        JsonValue::Object(_) => {},
        _ => return Err(reject("masking")),
    }
    if !check_members(x, &masking_key_list()) {
        return Err(reject("unknown-field"));
    }
    let strategy = match get_text(x, "strategy") {
        Some(t) => match MaskingStrategy::parse(t) {
            Some(s) => s,
            None => return Err(reject("masking")),
        },
        None => return Err(reject("masking")),
    };
    let policy_ref = match get_text(x, "policyRef") {
        Some(t) => match PolicyRef::parse(t) {
            Ok(p) => p,
            Err(_) => return Err(reject("masking")),
        },
        None => return Err(reject("masking")),
    };
    Ok(Masking { strategy, policy_ref })
}

/// Parse one kind rule.
pub fn kind_rule(v: &JsonValue) -> (r: Result<KindRule, Rejection>)
    ensures
        match kind_rule_error(*v) {
            Some(d) => r matches Err(e) && rejects(e, d),
            None => r matches Ok(k) && kind_rule_matches(*v, k@),
        },
{
    match v {
        JsonValue::Object(_) => {},
        _ => return Err(reject("kind-rule-shape")),
    }
    if !check_members(v, &kind_rule_key_list()) {
        return Err(reject("unknown-field"));
    }
    let kind = match get_text(v, "kind") {
        Some(t) => match DataKind::parse(t) {
            Some(k) => k,
            None => return Err(reject("kind")),
        },
        None => return Err(reject("kind")),
    };
    let readers = actor_list(v, "readers")?;
    let writers = actor_list(v, "writers")?;
    let destinations = match get(v, "destinations") {
        None => Vec::new(),
        Some(JsonValue::Array(items)) => destinations(items)?,
        Some(_) => return Err(reject("destinations")),
    };
    let masking = masking(get(v, "masking"))?;
    let retention_ref = optional_policy_ref(v, "retentionRef")?;
    let export_ref = optional_policy_ref(v, "exportRef")?;
    let encryption_refs = optional_list::<ContractRef>(v, "encryptionRefs", 8, "encryption-refs")?;
    let consent_required = match get(v, "consentRequired") {
        None => false,
        Some(JsonValue::Bool(b)) => *b,
        Some(_) => return Err(reject("consent-required")),
    };
    let cross_tenant = match get(v, "crossTenant") {
        None => if kind.cross_tenant_forbidden_by_default() {
            CrossTenantMode::Forbidden
        } else {
            CrossTenantMode::Reviewed
        },
        Some(JsonValue::Text(t)) => match CrossTenantMode::parse(t.as_str()) {
            Some(m) => m,
            None => return Err(reject("cross-tenant")),
        },
        Some(_) => return Err(reject("cross-tenant")),
    };
    let declassify_roles = optional_list::<RoleName>(v, "declassifyRoles", 8, "declassify-roles")?;
    proof {
        reveal(rule_core_matches);
        reveal(rule_rest_matches);
    }
    Ok(KindRule {
        kind,
        readers,
        writers,
        destinations,
        masking,
        retention_ref,
        export_ref,
        encryption_refs,
        consent_required,
        cross_tenant,
        declassify_roles,
    })
}


impl Ordered for KindRule {
    open spec fn spec_le(&self, other: &Self) -> bool {
        self@.kind.spec_rank() <= other@.kind.spec_rank()
    }

    proof fn lemma_total(a: &Self, b: &Self) {
    }

    proof fn lemma_transitive(a: &Self, b: &Self, c: &Self) {
    }

    fn le(&self, other: &Self) -> (r: bool) {
        self.kind.rank() <= other.kind.rank()
    }
}

/// The views of a list of kind rules.
pub open spec fn rule_views(s: Seq<KindRule>) -> Seq<KindRuleView> {
    s.map_values(|r: KindRule| r@)
}

/// The first refused rule's detail, in document order.
pub open spec fn kind_rule_items_error(items: Seq<JsonValue>) -> Option<Seq<char>>
    decreases items.len(),
{
    if items.len() == 0 {
        None
    } else {
        match kind_rule_error(items[0]) {
            Some(d) => Some(d),
            None => kind_rule_items_error(items.drop_first()),
        }
    }
}

/// Two distinct rules govern one kind.
pub open spec fn has_duplicated_kind(items: Seq<JsonValue>) -> bool {
    exists|i: int, j: int| 0 <= i < j < items.len() && #[trigger] kind_member(items[i], "kind"@).unwrap() == #[trigger] kind_member(items[j], "kind"@).unwrap()
}

/// The credential rule lists destinations, or declassification roles.
pub open spec fn credential_rule_has(items: Seq<JsonValue>, key: Seq<char>) -> bool {
    exists|k: int| 0 <= k < items.len() && #[trigger] kind_member(items[k], "kind"@).unwrap() == DataKind::Credential
        && array_of(member(items[k], key)) is Some && array_of(member(items[k], key)).unwrap().len() > 0
}

/// The kind-rule list of a policy.
pub open spec fn kind_rules_outcome(items: Seq<JsonValue>) -> Outcome {
    if items.len() == 0 || items.len() > 10 {
        Outcome::Reject("kind-list"@)
    } else if kind_rule_items_error(items) is Some {
        Outcome::Reject(kind_rule_items_error(items).unwrap())
    } else if has_duplicated_kind(items) {
        Outcome::Reject("duplicate-kind-rule"@)
    } else if credential_rule_has(items, "destinations"@) {
        Outcome::Reject("credential-destinations"@)
    } else if credential_rule_has(items, "declassifyRoles"@) {
        Outcome::Reject("credential-declassify-roles"@)
    } else {
        Outcome::Accept
    }
}

/// Some entry declares `r`.
pub open spec fn rule_declared_by_some(items: Seq<JsonValue>, r: KindRuleView) -> bool {
    exists|k: int| 0 <= k < items.len() && #[trigger] kind_rule_matches(items[k], r)
}

/// Some member of `out` is what entry `v` declares.
pub open spec fn rule_declares_some(out: Seq<KindRuleView>, v: JsonValue) -> bool {
    exists|i: int| 0 <= i < out.len() && #[trigger] kind_rule_matches(v, out[i])
}

/// The accepted rules: one per entry, strictly ordered by kind rank.
pub open spec fn kind_rules_match(items: Seq<JsonValue>, out: Seq<KindRuleView>) -> bool {
    &&& out.len() == items.len()
    &&& forall|i: int, j: int| 0 <= i < j < out.len() ==> (#[trigger] out[i]).kind.spec_rank() < (#[trigger] out[j]).kind.spec_rank()
    &&& forall|i: int| 0 <= i < out.len() ==> rule_declared_by_some(items, #[trigger] out[i])
    &&& forall|k: int| 0 <= k < items.len() ==> rule_declares_some(out, #[trigger] items[k])
}

proof fn lemma_rule_items_error_prefix(items: Seq<JsonValue>, i: int)
    requires
        0 <= i <= items.len(),
        forall|j: int| 0 <= j < i ==> kind_rule_error(#[trigger] items[j]) is None,
    ensures
        kind_rule_items_error(items) == kind_rule_items_error(items.subrange(i, items.len() as int)),
    decreases i,
{
    if i > 0 {
        assert(items.drop_first().subrange(i - 1, items.len() - 1) =~= items.subrange(i, items.len() as int));
        assert forall|j: int| 0 <= j < i - 1 implies kind_rule_error(#[trigger] items.drop_first()[j]) is None by {
            assert(items.drop_first()[j] == items[j + 1]);
        }
        lemma_rule_items_error_prefix(items.drop_first(), i - 1);
    } else {
        assert(items.subrange(0, items.len() as int) =~= items);
    }
}

proof fn lemma_rules_dup(items: Seq<JsonValue>, parsed: Seq<KindRule>, s: Seq<KindRule>, p: int)
    requires
        parsed.len() == items.len(),
        forall|j: int| 0 <= j < items.len() ==> kind_rule_matches(items[j], (#[trigger] parsed[j])@),
        s.to_multiset() == parsed.to_multiset(),
        0 <= p && p + 1 < s.len(),
        equivalent(s[p], s[p + 1]),
    ensures
        has_duplicated_kind(items),
{
    reveal(rule_core_matches);
    let x = s[p];
    assert(equivalent(s[p], x) && equivalent(s[p + 1], x));
    assert(crate::sorting::pair_like(s, x));
    crate::sorting::lemma_pair_like_permutation(s, parsed, x);
    let (a, b) = choose|a: int, b: int| 0 <= a < b < parsed.len() && #[trigger] equivalent(parsed[a], x)
        && #[trigger] equivalent(parsed[b], x);
    crate::classification::types::lemma_rank_bijective(parsed[a]@.kind, x@.kind);
    crate::classification::types::lemma_rank_bijective(parsed[b]@.kind, x@.kind);
    assert(kind_rule_matches(items[a], parsed[a]@));
    assert(kind_rule_matches(items[b], parsed[b]@));
    assert(kind_member(items[a], "kind"@).unwrap() == kind_member(items[b], "kind"@).unwrap());
}

proof fn lemma_rules_match(items: Seq<JsonValue>, parsed: Seq<KindRule>, s: Seq<KindRule>)
    requires
        parsed.len() == items.len(),
        forall|j: int| 0 <= j < items.len() ==> kind_rule_matches(items[j], (#[trigger] parsed[j])@),
        s.to_multiset() == parsed.to_multiset(),
        s.len() == parsed.len(),
        strictly_sorted(s),
    ensures
        kind_rules_match(items, rule_views(s)),
        !has_duplicated_kind(items),
{
    broadcast use vstd::seq_lib::group_to_multiset_ensures;
    reveal(rule_core_matches);
    if has_duplicated_kind(items) {
        let (a, b) = choose|a: int, b: int| 0 <= a < b < items.len() && #[trigger] kind_member(items[a], "kind"@).unwrap() == #[trigger] kind_member(items[b], "kind"@).unwrap();
        let x = parsed[a];
        assert(equivalent(parsed[a], x) && equivalent(parsed[b], x));
        assert(crate::sorting::pair_like(parsed, x));
        crate::sorting::lemma_pair_like_permutation(parsed, s, x);
        crate::sorting::lemma_strictly_sorted_no_pair(s, x);
    }
    let out = rule_views(s);
    assert forall|a: int, b: int| 0 <= a < b < out.len() implies (#[trigger] out[a]).kind.spec_rank() < (#[trigger] out[b]).kind.spec_rank() by {
        assert(s[a].spec_le(&s[b]) && !s[b].spec_le(&s[a]));
    }
    assert forall|a: int| 0 <= a < out.len() implies rule_declared_by_some(items, #[trigger] out[a]) by {
        assert(s.contains(s[a]));
        assert(s.to_multiset().count(s[a]) > 0);
        assert(parsed.contains(s[a]));
        let k = choose|k: int| 0 <= k < parsed.len() && parsed[k] == s[a];
        assert(kind_rule_matches(items[k], out[a]));
    }
    assert forall|k: int| 0 <= k < items.len() implies rule_declares_some(out, #[trigger] items[k]) by {
        assert(parsed.contains(parsed[k]));
        assert(parsed.to_multiset().count(parsed[k]) > 0);
        assert(s.contains(parsed[k]));
        let a = choose|a: int| 0 <= a < s.len() && s[a] == parsed[k];
        assert(kind_rule_matches(items[k], out[a]));
    }
}

/// Parse every kind rule; order by kind rank, refuse duplicate kinds,
/// and refuse destinations or declassification roles on `credential`.
pub fn kind_rules(items: &Vec<JsonValue>) -> (r: Result<Vec<KindRule>, Rejection>)
    ensures
        match kind_rules_outcome(items@) {
            Outcome::Accept => r matches Ok(out) && kind_rules_match(items@, rule_views(out@)),
            Outcome::Reject(d) => r matches Err(e) && rejects(e, d),
            Outcome::RejectSubject(d) => r is Err,
        },
{
    if items.len() == 0 || items.len() > 10 {
        return Err(reject("kind-list"));
    }
    let mut parsed: Vec<KindRule> = Vec::new();
    let mut i: usize = 0;
    while i < items.len()
        invariant
            i <= items@.len(),
            items@.len() <= 10,
            parsed@.len() == i,
            forall|j: int| 0 <= j < i ==> kind_rule_error(#[trigger] items@[j]) is None,
            forall|j: int| 0 <= j < i ==> kind_rule_matches(items@[j], (#[trigger] parsed@[j])@),
        decreases items@.len() - i,
    {
        proof { lemma_rule_items_error_prefix(items@, i as int); }
        let k = match kind_rule(&items[i]) {
            Ok(k) => k,
            Err(e) => {
                proof {
                    assert(items@.subrange(i as int, items@.len() as int)[0] == items@[i as int]);
                }
                return Err(e);
            },
        };
        parsed.push(k);
        i = i + 1;
    }
    proof {
        lemma_rule_items_error_prefix(items@, items@.len() as int);
        assert(kind_rule_items_error(items@.subrange(items@.len() as int, items@.len() as int)) is None);
    }
    let ghost parsed_view = parsed@;
    let sorted_list = sort(parsed);
    match first_adjacent_pair(&sorted_list) {
        Some(p) => {
            proof { lemma_rules_dup(items@, parsed_view, sorted_list@, p as int); }
            return Err(reject("duplicate-kind-rule"));
        },
        None => {
            proof { lemma_rules_match(items@, parsed_view, sorted_list@); }
        },
    }
    credential_check(items, &sorted_list)?;
    Ok(sorted_list)
}

/// The credential rule, if any, must list no destinations and no
/// declassification roles.
fn credential_check(items: &Vec<JsonValue>, rules: &Vec<KindRule>) -> (r: Result<(), Rejection>)
    requires
        kind_rules_match(items@, rule_views(rules@)),
    ensures
        if credential_rule_has(items@, "destinations"@) {
            r matches Err(e) && rejects(e, "credential-destinations"@)
        } else if credential_rule_has(items@, "declassifyRoles"@) {
            r matches Err(e) && rejects(e, "credential-declassify-roles"@)
        } else {
            r is Ok
        },
{
    let mut c: usize = 0;
    while c < rules.len() && rules[c].kind() != DataKind::Credential
        invariant
            c <= rules@.len(),
            forall|j: int| 0 <= j < c ==> (#[trigger] rules@[j])@.kind != DataKind::Credential,
        decreases rules@.len() - c,
    {
        c = c + 1;
    }
    if c < rules.len() {
        let rule = &rules[c];
        proof { lemma_credential_rule(items@, rules@, c as int); }
        if rule.destinations.len() > 0 {
            return Err(reject("credential-destinations"));
        }
        if rule.declassify_roles.len() > 0 {
            return Err(reject("credential-declassify-roles"));
        }
        Ok(())
    } else {
        proof { lemma_no_credential_rule(items@, rules@); }
        Ok(())
    }
}

/// Every credential entry declares the credential rule at `c`.
proof fn lemma_credential_entries(items: Seq<JsonValue>, rules: Seq<KindRule>, c: int)
    requires
        kind_rules_match(items, rule_views(rules)),
        0 <= c < rules.len(),
        rules[c]@.kind == DataKind::Credential,
    ensures
        forall|k: int| 0 <= k < items.len() && #[trigger] kind_member(items[k], "kind"@).unwrap() == DataKind::Credential
            ==> kind_rule_matches(items[k], rule_views(rules)[c]),
        exists|k: int| 0 <= k < items.len() && #[trigger] kind_rule_matches(items[k], rule_views(rules)[c]),
{
    reveal(rule_core_matches);
    let out = rule_views(rules);
    assert(out[c] == rules[c]@);
    assert(rule_declared_by_some(items, out[c]));
    assert forall|k: int| 0 <= k < items.len() && #[trigger] kind_member(items[k], "kind"@).unwrap() == DataKind::Credential
        implies kind_rule_matches(items[k], out[c]) by {
        assert(rule_declares_some(out, items[k]));
        let a = choose|a: int| 0 <= a < out.len() && #[trigger] kind_rule_matches(items[k], out[a]);
        if a != c {
            crate::classification::types::lemma_rank_bijective(out[a].kind, out[c].kind);
            if a < c {
                assert(out[a].kind.spec_rank() < out[c].kind.spec_rank());
            } else {
                assert(out[c].kind.spec_rank() < out[a].kind.spec_rank());
            }
        }
    }
}

proof fn lemma_credential_rule(items: Seq<JsonValue>, rules: Seq<KindRule>, c: int)
    requires
        kind_rules_match(items, rule_views(rules)),
        0 <= c < rules.len(),
        rules[c]@.kind == DataKind::Credential,
    ensures
        credential_rule_has(items, "destinations"@) <==> rules[c]@.destinations.len() > 0,
        credential_rule_has(items, "declassifyRoles"@) <==> rules[c]@.declassify_roles.len() > 0,
{
    lemma_credential_destinations(items, rules, c);
    lemma_credential_roles(items, rules, c);
}

proof fn lemma_credential_destinations(items: Seq<JsonValue>, rules: Seq<KindRule>, c: int)
    requires
        kind_rules_match(items, rule_views(rules)),
        0 <= c < rules.len(),
        rules[c]@.kind == DataKind::Credential,
    ensures
        credential_rule_has(items, "destinations"@) <==> rules[c]@.destinations.len() > 0,
{
    lemma_credential_entries(items, rules, c);
    reveal(rule_core_matches);
    let out = rule_views(rules);
    assert(out[c] == rules[c]@);
    let kc = choose|k: int| 0 <= k < items.len() && #[trigger] kind_rule_matches(items[k], out[c]);
    if out[c].destinations.len() > 0 {
        match array_of(member(items[kc], "destinations"@)) {
            Some(ds) => {
                assert(destination_spelled(ds, out[c].destinations[0]));
            },
            None => {},
        }
        assert(credential_rule_has(items, "destinations"@));
    }
    if credential_rule_has(items, "destinations"@) {
        let k = choose|k: int| 0 <= k < items.len() && #[trigger] kind_member(items[k], "kind"@).unwrap() == DataKind::Credential
            && array_of(member(items[k], "destinations"@)) is Some && array_of(member(items[k], "destinations"@)).unwrap().len() > 0;
        let ds = array_of(member(items[k], "destinations"@)).unwrap();
        assert(kind_rule_matches(items[k], out[c]));
        assert(out[c].destinations.contains(destination_of(ds[0]).unwrap()));
    }
}

proof fn lemma_credential_roles(items: Seq<JsonValue>, rules: Seq<KindRule>, c: int)
    requires
        kind_rules_match(items, rule_views(rules)),
        0 <= c < rules.len(),
        rules[c]@.kind == DataKind::Credential,
    ensures
        credential_rule_has(items, "declassifyRoles"@) <==> rules[c]@.declassify_roles.len() > 0,
{
    lemma_credential_entries(items, rules, c);
    reveal(rule_core_matches);
    let out = rule_views(rules);
    assert(out[c] == rules[c]@);
    let kc = choose|k: int| 0 <= k < items.len() && #[trigger] kind_rule_matches(items[k], out[c]);
    if out[c].declassify_roles.len() > 0 {
        match array_of(member(items[kc], "declassifyRoles"@)) {
            Some(rs) => {
                assert(item_texts(rs).contains(out[c].declassify_roles[0]));
            },
            None => {},
        }
        assert(credential_rule_has(items, "declassifyRoles"@));
    }
    if credential_rule_has(items, "declassifyRoles"@) {
        let k = choose|k: int| 0 <= k < items.len() && #[trigger] kind_member(items[k], "kind"@).unwrap() == DataKind::Credential
            && array_of(member(items[k], "declassifyRoles"@)) is Some && array_of(member(items[k], "declassifyRoles"@)).unwrap().len() > 0;
        let rs = array_of(member(items[k], "declassifyRoles"@)).unwrap();
        assert(kind_rule_matches(items[k], out[c]));
        assert(out[c].declassify_roles.contains(item_texts(rs)[0]));
    }
}

proof fn lemma_no_credential_rule(items: Seq<JsonValue>, rules: Seq<KindRule>)
    requires
        kind_rules_match(items, rule_views(rules)),
        forall|j: int| 0 <= j < rules.len() ==> (#[trigger] rules[j])@.kind != DataKind::Credential,
    ensures
        !credential_rule_has(items, "destinations"@),
        !credential_rule_has(items, "declassifyRoles"@),
{
    reveal(rule_core_matches);
    let out = rule_views(rules);
    assert forall|k: int| 0 <= k < items.len() implies #[trigger] kind_member(items[k], "kind"@).unwrap() != DataKind::Credential by {
        assert(rule_declares_some(out, items[k]));
        let a = choose|a: int| 0 <= a < out.len() && #[trigger] kind_rule_matches(items[k], out[a]);
        assert(rules[a]@.kind != DataKind::Credential);
    }
}


// ---------------------------------------------------------------------
// Sink ceilings

/// The most restrictive kind a non-model sink may receive.
#[derive(Clone, Copy, Debug, PartialEq, Eq, Structural)]
pub struct SinkCeiling {
    max_kind: DataKind,
}

impl View for SinkCeiling {
    type V = DataKind;

    closed spec fn view(&self) -> DataKind {
        self.max_kind
    }
}

impl SinkCeiling {
    /// The ceiling kind.
    pub fn max_kind(&self) -> (r: DataKind)
        ensures
            r == self@,
    {
        self.max_kind
    }
}

/// The closed sinks member set.
pub open spec fn sinks_keys() -> Seq<Seq<char>> {
    seq!["logs"@, "traces"@, "contextCapsules"@, "diagnostics"@, "evidence"@, "exports"@]
}

fn sinks_key_list() -> (r: Vec<&'static str>)
    ensures
        key_texts(r@) == sinks_keys(),
{
    let mut r: Vec<&'static str> = Vec::new();
    r.push("logs");
    r.push("traces");
    r.push("contextCapsules");
    r.push("diagnostics");
    r.push("evidence");
    r.push("exports");
    assert(key_texts(r@) =~= sinks_keys());
    r
}

fn ceiling_key_list() -> (r: Vec<&'static str>)
    ensures
        key_texts(r@) == seq!["maxKind"@],
{
    let mut r: Vec<&'static str> = Vec::new();
    r.push("maxKind");
    assert(key_texts(r@) =~= seq!["maxKind"@]);
    r
}

/// The ceiling of one sink.
pub open spec fn ceiling_result(v: JsonValue, sink: SinkName) -> Result<DataKind, Seq<char>> {
    match member(v, sink.spec_text()) {
        None => Err("sinks"@),
        Some(c) => if !is_object(c) {
            Err("sink-ceiling"@)
        } else if !members_within(c, seq!["maxKind"@]) {
            Err("unknown-field"@)
        } else if kind_member(c, "maxKind"@) is None {
            Err("sink-ceiling"@)
        } else {
            Ok(kind_member(c, "maxKind"@).unwrap())
        },
    }
}

/// The first sink, from position `i` on, whose ceiling is refused.
pub open spec fn ceilings_error_from(v: JsonValue, i: int) -> Option<Seq<char>>
    decreases 6 - i,
{
    if i >= 6 || i < 0 {
        None
    } else {
        match ceiling_result(v, all_sinks()[i]) {
            Err(d) => Some(d),
            Ok(_) => ceilings_error_from(v, i + 1),
        }
    }
}

/// Why the sinks object is refused, if it is.
pub open spec fn sinks_error(v: JsonValue) -> Option<Seq<char>> {
    if !is_object(v) {
        Some("sinks"@)
    } else if !members_within(v, sinks_keys()) {
        Some("unknown-field"@)
    } else {
        ceilings_error_from(v, 0)
    }
}

/// The accepted ceilings: every sink in the closed order with its kind.
pub open spec fn sinks_match(v: JsonValue, out: Seq<(SinkName, DataKind)>) -> bool {
    &&& out.len() == 6
    &&& forall|i: int| 0 <= i < 6 ==> (#[trigger] out[i]).0 == all_sinks()[i] && out[i].1 == ceiling_result(v, all_sinks()[i])->Ok_0
}

/// The views of sink ceilings.
pub open spec fn sink_views(s: Seq<(SinkName, SinkCeiling)>) -> Seq<(SinkName, DataKind)> {
    s.map_values(|x: (SinkName, SinkCeiling)| (x.0, x.1@))
}

fn sinks(v: &JsonValue) -> (r: Result<Vec<(SinkName, SinkCeiling)>, Rejection>)
    ensures
        match sinks_error(*v) {
            Some(d) => r matches Err(e) && rejects(e, d),
            None => r matches Ok(out) && sinks_match(*v, sink_views(out@)),
        },
{
    match v {
        JsonValue::Object(_) => {},
        _ => return Err(reject("sinks")),
    }
    if !check_members(v, &sinks_key_list()) {
        return Err(reject("unknown-field"));
    }
    let names = sink_names();
    let keys = ceiling_key_list();
    let mut out: Vec<(SinkName, SinkCeiling)> = Vec::new();
    let mut i: usize = 0;
    while i < 6
        invariant
            i <= 6,
            names@ == all_sinks(),
            key_texts(keys@) == seq!["maxKind"@],
            is_object(*v) && members_within(*v, sinks_keys()),
            ceilings_error_from(*v, 0) == ceilings_error_from(*v, i as int),
            out@.len() == i,
            forall|j: int| 0 <= j < i ==> (#[trigger] sink_views(out@)[j]).0 == all_sinks()[j]
                && sink_views(out@)[j].1 == ceiling_result(*v, all_sinks()[j])->Ok_0,
        decreases 6 - i,
    {
        let sink = names[i];
        let c = match get(v, sink.as_str()) {
            Some(c) => c,
            None => return Err(reject("sinks")),
        };
        match c {
            JsonValue::Object(_) => {},
            _ => return Err(reject("sink-ceiling")),
        }
        if !check_members(c, &keys) {
            return Err(reject("unknown-field"));
        }
        let max_kind = match get_text(c, "maxKind") {
            Some(t) => match DataKind::parse(t) {
                Some(k) => k,
                None => return Err(reject("sink-ceiling")),
            },
            None => return Err(reject("sink-ceiling")),
        };
        let ghost before = out@;
        out.push((sink, SinkCeiling { max_kind }));
        proof {
            assert(sink_views(out@) =~= sink_views(before).push((sink, max_kind)));
        }
        i = i + 1;
    }
    Ok(out)
}

// ---------------------------------------------------------------------
// Policy open questions

/// One registered open question of the policy.
#[derive(Debug, PartialEq, Eq)]
pub struct PolicyOpenQuestion {
    id: QuestionId,
    question: BoundedText,
    kind: Option<DataKind>,
}

/// The contract-level content of a policy open question.
pub struct PolicyOpenQuestionView {
    pub id: Seq<char>,
    pub question: Seq<char>,
    pub kind: Option<DataKind>,
}

impl View for PolicyOpenQuestion {
    type V = PolicyOpenQuestionView;

    closed spec fn view(&self) -> PolicyOpenQuestionView {
        PolicyOpenQuestionView { id: self.id@, question: self.question@, kind: self.kind }
    }
}

impl PolicyOpenQuestion {
    /// The question id.
    pub fn id(&self) -> (r: &QuestionId)
        ensures
            r@ == self@.id,
    {
        &self.id
    }

    /// The bounded question text.
    pub fn question(&self) -> (r: &BoundedText)
        ensures
            r@ == self@.question,
    {
        &self.question
    }

    /// The optional related kind.
    pub fn kind(&self) -> (r: Option<DataKind>)
        ensures
            r == self@.kind,
    {
        self.kind
    }
}

impl Ordered for PolicyOpenQuestion {
    open spec fn spec_le(&self, other: &Self) -> bool {
        text_le(self@.id, other@.id)
    }

    proof fn lemma_total(a: &Self, b: &Self) {
        lemma_text_le_order(a@.id, b@.id, a@.id);
    }

    proof fn lemma_transitive(a: &Self, b: &Self, c: &Self) {
        lemma_text_le_order(a@.id, b@.id, c@.id);
    }

    fn le(&self, other: &Self) -> (r: bool) {
        !str_lt(other.id.as_str(), self.id.as_str())
    }
}

/// The closed policy open-question member set.
pub open spec fn policy_question_keys() -> Seq<Seq<char>> {
    seq!["id"@, "question"@, "kind"@]
}

fn policy_question_key_list() -> (r: Vec<&'static str>)
    ensures
        key_texts(r@) == policy_question_keys(),
{
    let mut r: Vec<&'static str> = Vec::new();
    r.push("id");
    r.push("question");
    r.push("kind");
    assert(key_texts(r@) =~= policy_question_keys());
    r
}

/// Why one policy question is refused, if it is.
pub open spec fn policy_question_error(v: JsonValue) -> Option<Seq<char>> {
    if !is_object(v) {
        Some("open-question-shape"@)
    } else if !members_within(v, policy_question_keys()) {
        Some("unknown-field"@)
    } else if text_member(v, "id"@) is None || label_error(text_member(v, "id"@).unwrap()) is Some {
        Some("question-id"@)
    } else if text_member(v, "question"@) is None || bounded_text_error(text_member(v, "question"@).unwrap()) is Some {
        Some("question"@)
    } else if member(v, "kind"@) is Some && kind_member(v, "kind"@) is None {
        Some("kind"@)
    } else {
        None
    }
}

/// The question a valid entry declares.
pub open spec fn policy_question_matches(v: JsonValue, q: PolicyOpenQuestionView) -> bool {
    &&& q.id == text_member(v, "id"@).unwrap()
    &&& q.question == text_member(v, "question"@).unwrap()
    &&& q.kind == kind_member(v, "kind"@)
}

fn policy_question(v: &JsonValue) -> (r: Result<PolicyOpenQuestion, Rejection>)
    ensures
        match policy_question_error(*v) {
            Some(d) => r matches Err(e) && rejects(e, d),
            None => r matches Ok(q) && policy_question_matches(*v, q@),
        },
{
    match v {
        JsonValue::Object(_) => {},
        _ => return Err(reject("open-question-shape")),
    }
    if !check_members(v, &policy_question_key_list()) {
        return Err(reject("unknown-field"));
    }
    let id = match get_text(v, "id") {
        Some(t) => match QuestionId::parse(t) {
            Ok(x) => x,
            Err(_) => return Err(reject("question-id")),
        },
        None => return Err(reject("question-id")),
    };
    let question = match get_text(v, "question") {
        Some(t) => match BoundedText::parse(t) {
            Ok(x) => x,
            Err(_) => return Err(reject("question")),
        },
        None => return Err(reject("question")),
    };
    let kind = match get(v, "kind") {
        None => None,
        Some(JsonValue::Text(t)) => match DataKind::parse(t.as_str()) {
            Some(k) => Some(k),
            None => return Err(reject("kind")),
        },
        Some(_) => return Err(reject("kind")),
    };
    Ok(PolicyOpenQuestion { id, question, kind })
}

/// The views of policy questions.
pub open spec fn policy_question_views(s: Seq<PolicyOpenQuestion>) -> Seq<PolicyOpenQuestionView> {
    s.map_values(|q: PolicyOpenQuestion| q@)
}

/// The first refused question's detail, in document order.
pub open spec fn policy_question_items_error(items: Seq<JsonValue>) -> Option<Seq<char>>
    decreases items.len(),
{
    if items.len() == 0 {
        None
    } else {
        match policy_question_error(items[0]) {
            Some(d) => Some(d),
            None => policy_question_items_error(items.drop_first()),
        }
    }
}

/// The open-question list of a policy.
pub open spec fn policy_questions_outcome(items: Seq<JsonValue>) -> Outcome {
    if items.len() > 256 {
        Outcome::Reject("open-question-list"@)
    } else if policy_question_items_error(items) is Some {
        Outcome::Reject(policy_question_items_error(items).unwrap())
    } else if super::wire::has_duplicated_id(items) {
        Outcome::Reject("duplicate-question"@)
    } else {
        Outcome::Accept
    }
}

/// Some entry declares `q`.
pub open spec fn policy_question_declared(items: Seq<JsonValue>, q: PolicyOpenQuestionView) -> bool {
    exists|k: int| 0 <= k < items.len() && #[trigger] policy_question_matches(items[k], q)
}

/// Some member of `out` is what entry `v` declares.
pub open spec fn policy_question_declares(out: Seq<PolicyOpenQuestionView>, v: JsonValue) -> bool {
    exists|i: int| 0 <= i < out.len() && #[trigger] policy_question_matches(v, out[i])
}

/// The accepted questions: one per entry, strictly ordered by id.
pub open spec fn policy_questions_match(items: Seq<JsonValue>, out: Seq<PolicyOpenQuestionView>) -> bool {
    &&& out.len() == items.len()
    &&& forall|i: int, j: int| 0 <= i < j < out.len() ==> text_lt(#[trigger] out[i].id, #[trigger] out[j].id)
    &&& forall|i: int| 0 <= i < out.len() ==> policy_question_declared(items, #[trigger] out[i])
    &&& forall|k: int| 0 <= k < items.len() ==> policy_question_declares(out, #[trigger] items[k])
}

proof fn lemma_policy_question_prefix(items: Seq<JsonValue>, i: int)
    requires
        0 <= i <= items.len(),
        forall|j: int| 0 <= j < i ==> policy_question_error(#[trigger] items[j]) is None,
    ensures
        policy_question_items_error(items) == policy_question_items_error(items.subrange(i, items.len() as int)),
    decreases i,
{
    if i > 0 {
        assert(items.drop_first().subrange(i - 1, items.len() - 1) =~= items.subrange(i, items.len() as int));
        assert forall|j: int| 0 <= j < i - 1 implies policy_question_error(#[trigger] items.drop_first()[j]) is None by {
            assert(items.drop_first()[j] == items[j + 1]);
        }
        lemma_policy_question_prefix(items.drop_first(), i - 1);
    } else {
        assert(items.subrange(0, items.len() as int) =~= items);
    }
}

proof fn lemma_policy_questions_dup(items: Seq<JsonValue>, parsed: Seq<PolicyOpenQuestion>, s: Seq<PolicyOpenQuestion>, p: int)
    requires
        parsed.len() == items.len(),
        forall|j: int| 0 <= j < items.len() ==> policy_question_matches(items[j], (#[trigger] parsed[j])@),
        s.to_multiset() == parsed.to_multiset(),
        0 <= p && p + 1 < s.len(),
        equivalent(s[p], s[p + 1]),
    ensures
        super::wire::has_duplicated_id(items),
{
    let x = s[p];
    PolicyOpenQuestion::lemma_total(&x, &x);
    assert(equivalent(s[p], x) && equivalent(s[p + 1], x));
    assert(crate::sorting::pair_like(s, x));
    crate::sorting::lemma_pair_like_permutation(s, parsed, x);
    let (a, b) = choose|a: int, b: int| 0 <= a < b < parsed.len() && #[trigger] equivalent(parsed[a], x)
        && #[trigger] equivalent(parsed[b], x);
    lemma_text_le_order(parsed[a]@.id, x@.id, x@.id);
    lemma_text_le_order(parsed[b]@.id, x@.id, x@.id);
    assert(super::wire::entry_id(items[a]) == super::wire::entry_id(items[b]));
}

proof fn lemma_policy_questions_match(items: Seq<JsonValue>, parsed: Seq<PolicyOpenQuestion>, s: Seq<PolicyOpenQuestion>)
    requires
        parsed.len() == items.len(),
        forall|j: int| 0 <= j < items.len() ==> policy_question_matches(items[j], (#[trigger] parsed[j])@),
        s.to_multiset() == parsed.to_multiset(),
        s.len() == parsed.len(),
        strictly_sorted(s),
    ensures
        policy_questions_match(items, policy_question_views(s)),
        !super::wire::has_duplicated_id(items),
{
    broadcast use vstd::seq_lib::group_to_multiset_ensures;
    if super::wire::has_duplicated_id(items) {
        let (a, b) = choose|a: int, b: int| 0 <= a < b < items.len() && #[trigger] super::wire::entry_id(items[a]) == #[trigger] super::wire::entry_id(items[b]);
        let x = parsed[a];
        lemma_text_le_order(x@.id, x@.id, x@.id);
        assert(equivalent(parsed[a], x) && equivalent(parsed[b], x));
        assert(crate::sorting::pair_like(parsed, x));
        crate::sorting::lemma_pair_like_permutation(parsed, s, x);
        crate::sorting::lemma_strictly_sorted_no_pair(s, x);
    }
    let out = policy_question_views(s);
    assert forall|a: int, b: int| 0 <= a < b < out.len() implies text_lt(#[trigger] out[a].id, #[trigger] out[b].id) by {
        assert(s[a].spec_le(&s[b]) && !s[b].spec_le(&s[a]));
    }
    assert forall|a: int| 0 <= a < out.len() implies policy_question_declared(items, #[trigger] out[a]) by {
        assert(s.contains(s[a]));
        assert(s.to_multiset().count(s[a]) > 0);
        assert(parsed.contains(s[a]));
        let k = choose|k: int| 0 <= k < parsed.len() && parsed[k] == s[a];
        assert(policy_question_matches(items[k], out[a]));
    }
    assert forall|k: int| 0 <= k < items.len() implies policy_question_declares(out, #[trigger] items[k]) by {
        assert(parsed.contains(parsed[k]));
        assert(parsed.to_multiset().count(parsed[k]) > 0);
        assert(s.contains(parsed[k]));
        let a = choose|a: int| 0 <= a < s.len() && s[a] == parsed[k];
        assert(policy_question_matches(items[k], out[a]));
    }
}

fn policy_questions(items: &Vec<JsonValue>) -> (r: Result<Vec<PolicyOpenQuestion>, Rejection>)
    ensures
        match policy_questions_outcome(items@) {
            Outcome::Accept => r matches Ok(out) && policy_questions_match(items@, policy_question_views(out@)),
            Outcome::Reject(d) => r matches Err(e) && rejects(e, d),
            Outcome::RejectSubject(d) => r is Err,
        },
{
    if items.len() > 256 {
        return Err(reject("open-question-list"));
    }
    let mut parsed: Vec<PolicyOpenQuestion> = Vec::new();
    let mut i: usize = 0;
    while i < items.len()
        invariant
            i <= items@.len(),
            items@.len() <= 256,
            parsed@.len() == i,
            forall|j: int| 0 <= j < i ==> policy_question_error(#[trigger] items@[j]) is None,
            forall|j: int| 0 <= j < i ==> policy_question_matches(items@[j], (#[trigger] parsed@[j])@),
        decreases items@.len() - i,
    {
        proof { lemma_policy_question_prefix(items@, i as int); }
        let q = match policy_question(&items[i]) {
            Ok(q) => q,
            Err(e) => {
                proof {
                    assert(items@.subrange(i as int, items@.len() as int)[0] == items@[i as int]);
                }
                return Err(e);
            },
        };
        parsed.push(q);
        i = i + 1;
    }
    proof {
        lemma_policy_question_prefix(items@, items@.len() as int);
        assert(policy_question_items_error(items@.subrange(items@.len() as int, items@.len() as int)) is None);
    }
    let ghost parsed_view = parsed@;
    let sorted_list = sort(parsed);
    match first_adjacent_pair(&sorted_list) {
        Some(p) => {
            proof { lemma_policy_questions_dup(items@, parsed_view, sorted_list@, p as int); }
            Err(reject("duplicate-question"))
        },
        None => {
            proof { lemma_policy_questions_match(items@, parsed_view, sorted_list@); }
            Ok(sorted_list)
        },
    }
}


// ---------------------------------------------------------------------
// The policy attachment

/// The typed classification-policy attachment.
#[derive(Debug)]
pub struct PolicyAttachment {
    attachment_revision: String,
    project_id: SemanticId,
    model_ref: (String, Sha256Digest),
    ir_ref: (String, Sha256Digest),
    kinds: Vec<KindRule>,
    sinks: Vec<(SinkName, SinkCeiling)>,
    open_questions: Vec<PolicyOpenQuestion>,
}

/// The contract-level content of a policy.
pub struct PolicyView {
    pub attachment_revision: Seq<char>,
    pub project_id: Seq<char>,
    pub model_ref: (Seq<char>, Seq<char>),
    pub ir_ref: (Seq<char>, Seq<char>),
    pub kinds: Seq<KindRuleView>,
    pub sinks: Seq<(SinkName, DataKind)>,
    pub open_questions: Seq<PolicyOpenQuestionView>,
}

impl View for PolicyAttachment {
    type V = PolicyView;

    closed spec fn view(&self) -> PolicyView {
        PolicyView {
            attachment_revision: self.attachment_revision@,
            project_id: self.project_id@,
            model_ref: (self.model_ref.0@, self.model_ref.1@),
            ir_ref: (self.ir_ref.0@, self.ir_ref.1@),
            kinds: rule_views(self.kinds@),
            sinks: sink_views(self.sinks@),
            open_questions: policy_question_views(self.open_questions@),
        }
    }
}

/// The closed policy top-level member set.
pub open spec fn policy_keys() -> Seq<Seq<char>> {
    seq!["schemaVersion"@, "identity"@, "attachmentRevision"@, "projectId"@, "modelRef"@, "irRef"@,
        "kinds"@, "sinks"@, "openQuestions"@]
}

fn policy_key_list() -> (r: Vec<&'static str>)
    ensures
        key_texts(r@) == policy_keys(),
{
    let mut r: Vec<&'static str> = Vec::new();
    r.push("schemaVersion");
    r.push("identity");
    r.push("attachmentRevision");
    r.push("projectId");
    r.push("modelRef");
    r.push("irRef");
    r.push("kinds");
    r.push("sinks");
    r.push("openQuestions");
    assert(key_texts(r@) =~= policy_keys());
    r
}

/// The verdict on one policy document.
pub open spec fn policy_outcome(v: JsonValue) -> Outcome {
    if !is_object(v) {
        Outcome::Reject("top-level-shape"@)
    } else if !members_within(v, policy_keys()) {
        Outcome::Reject("unknown-field"@)
    } else if text_member(v, "schemaVersion"@) != Some("lekalo/classification-policy/v0.4.0"@) {
        Outcome::Reject("schema-version"@)
    } else if text_member(v, "identity"@) != Some("dev.lekalo.classification-policy@0.4.0"@) {
        Outcome::Reject("contract-identity"@)
    } else if revision_result(text_member(v, "attachmentRevision"@), "attachment-revision"@) is Err {
        Outcome::Reject("attachment-revision"@)
    } else if text_member(v, "projectId"@) is None || !is_root_id(text_member(v, "projectId"@).unwrap()) {
        Outcome::Reject("project-id"@)
    } else if member(v, "modelRef"@) is None {
        Outcome::Reject("model-ref"@)
    } else if model_pin_result(member(v, "modelRef"@).unwrap()) is Err {
        Outcome::Reject(model_pin_result(member(v, "modelRef"@).unwrap())->Err_0)
    } else if member(v, "irRef"@) is None {
        Outcome::Reject("ir-ref"@)
    } else if ir_pin_result(member(v, "irRef"@).unwrap()) is Err {
        Outcome::Reject(ir_pin_result(member(v, "irRef"@).unwrap())->Err_0)
    } else if array_of(member(v, "kinds"@)) is None {
        Outcome::Reject("kind-list"@)
    } else if !(kind_rules_outcome(array_of(member(v, "kinds"@)).unwrap()) is Accept) {
        kind_rules_outcome(array_of(member(v, "kinds"@)).unwrap())
    } else if member(v, "sinks"@) is None {
        Outcome::Reject("sinks"@)
    } else if sinks_error(member(v, "sinks"@).unwrap()) is Some {
        Outcome::Reject(sinks_error(member(v, "sinks"@).unwrap()).unwrap())
    } else if array_of(member(v, "openQuestions"@)) is None {
        Outcome::Reject("open-question-list"@)
    } else {
        policy_questions_outcome(array_of(member(v, "openQuestions"@)).unwrap())
    }
}

/// What one policy document (exact bytes) comes to: the byte bound,
/// UTF-8, JSON syntax, then the document's own checks.
pub open spec fn policy_bytes_outcome(bytes: Seq<u8>) -> Outcome {
    if bytes.len() > 8 * 1024 * 1024 {
        Outcome::Reject("document-bytes"@)
    } else if !vstd::utf8::valid_utf8(bytes) {
        Outcome::Reject("invalid-encoding"@)
    } else if crate::json::parsed_json(bytes) is None {
        Outcome::Reject("json-syntax"@)
    } else {
        policy_outcome(crate::json::parsed_json(bytes).unwrap())
    }
}

/// The policy an accepted document declares.
pub open spec fn policy_matches(v: JsonValue, p: PolicyView) -> bool {
    &&& p.attachment_revision == text_member(v, "attachmentRevision"@).unwrap()
    &&& p.project_id == text_member(v, "projectId"@).unwrap()
    &&& p.model_ref == model_pin_result(member(v, "modelRef"@).unwrap())->Ok_0
    &&& p.ir_ref == ir_pin_result(member(v, "irRef"@).unwrap())->Ok_0
    &&& kind_rules_match(array_of(member(v, "kinds"@)).unwrap(), p.kinds)
    &&& sinks_match(member(v, "sinks"@).unwrap(), p.sinks)
    &&& policy_questions_match(array_of(member(v, "openQuestions"@)).unwrap(), p.open_questions)
}

/// Normalize one policy document, or refuse it with the first
/// violation.
pub fn policy_document(v: &JsonValue) -> (r: Result<PolicyAttachment, Rejection>)
    ensures
        match policy_outcome(*v) {
            Outcome::Accept => r matches Ok(p) && policy_matches(*v, p@),
            Outcome::Reject(d) => r matches Err(e) && rejects(e, d),
            Outcome::RejectSubject(d) => r is Err,
        },
{
    match v {
        JsonValue::Object(_) => {},
        _ => return Err(reject("top-level-shape")),
    }
    if !check_members(v, &policy_key_list()) {
        return Err(reject("unknown-field"));
    }
    match get_text(v, "schemaVersion") {
        Some(t) => if !str_eq(t, "lekalo/classification-policy/v0.4.0") {
            return Err(reject("schema-version"));
        },
        None => return Err(reject("schema-version")),
    }
    match get_text(v, "identity") {
        Some(t) => if !str_eq(t, "dev.lekalo.classification-policy@0.4.0") {
            return Err(reject("contract-identity"));
        },
        None => return Err(reject("contract-identity")),
    }
    let attachment_revision = match get_text(v, "attachmentRevision") {
        Some(t) => if check_revision(t) {
            t.to_owned()
        } else {
            return Err(reject("attachment-revision"));
        },
        None => return Err(reject("attachment-revision")),
    };
    let project_id = match get_text(v, "projectId") {
        Some(t) => match SemanticId::parse_root(t) {
            Ok(id) => id,
            Err(_) => return Err(reject("project-id")),
        },
        None => return Err(reject("project-id")),
    };
    let model_ref = match get(v, "modelRef") {
        Some(m) => model_pin(m)?,
        None => return Err(reject("model-ref")),
    };
    let ir_ref = match get(v, "irRef") {
        Some(m) => ir_pin(m)?,
        None => return Err(reject("ir-ref")),
    };
    let kinds = match get_array(v, "kinds") {
        Some(items) => kind_rules(items)?,
        None => return Err(reject("kind-list")),
    };
    let sinks = match get(v, "sinks") {
        Some(m) => sinks(m)?,
        None => return Err(reject("sinks")),
    };
    let open_questions = match get_array(v, "openQuestions") {
        Some(items) => policy_questions(items)?,
        None => return Err(reject("open-question-list")),
    };
    Ok(PolicyAttachment { attachment_revision, project_id, model_ref, ir_ref, kinds, sinks, open_questions })
}

/// The first rule of a kind.
pub open spec fn rule_of(rules: Seq<KindRuleView>, kind: DataKind) -> Option<KindRuleView>
    decreases rules.len(),
{
    if rules.len() == 0 {
        None
    } else if rules[0].kind == kind {
        Some(rules[0])
    } else {
        rule_of(rules.drop_first(), kind)
    }
}

/// The first ceiling of a sink.
pub open spec fn ceiling_of(sinks: Seq<(SinkName, DataKind)>, sink: SinkName) -> Option<DataKind>
    decreases sinks.len(),
{
    if sinks.len() == 0 {
        None
    } else if sinks[0].0 == sink {
        Some(sinks[0].1)
    } else {
        ceiling_of(sinks.drop_first(), sink)
    }
}

impl PolicyAttachment {
    /// Normalize one policy document, or return the registered refusal
    /// set.
    pub fn from_value(json: &JsonValue) -> (r: Result<PolicyAttachment, crate::diagnostics::set::DiagnosticSet>)
        ensures
            match policy_outcome(*json) {
                Outcome::Accept => r matches Ok(p) && policy_matches(*json, p@),
                Outcome::Reject(d) => r matches Err(set) && super::diagnostic::classification_set(set@, "classification.unknown-kind"@, d, None),
                Outcome::RejectSubject(d) => r is Err,
            },
    {
        match policy_document(json) {
            Ok(p) => Ok(p),
            Err(e) => Err(super::wire::rejection_set(&e)),
        }
    }

    /// Parse one policy document (exact UTF-8 JSON bytes), or return the
    /// registered refusal set.
    pub fn parse(bytes: &[u8]) -> (r: Result<PolicyAttachment, crate::diagnostics::set::DiagnosticSet>)
        ensures
            match policy_bytes_outcome(bytes@) {
                Outcome::Accept => r matches Ok(p) && policy_matches(crate::json::parsed_json(bytes@).unwrap(), p@),
                Outcome::Reject(d) => r matches Err(set) && super::diagnostic::classification_set(set@, "classification.unknown-kind"@, d, None),
                Outcome::RejectSubject(d) => r is Err,
            },
    {
        if bytes.len() > 8 * 1024 * 1024 {
            return Err(super::diagnostic::document_invalid("document-bytes", None));
        }
        if !crate::text::is_utf8(bytes) {
            return Err(super::diagnostic::document_invalid("invalid-encoding", None));
        }
        match crate::json::parse_json(bytes) {
            Some(json) => PolicyAttachment::from_value(&json),
            None => Err(super::diagnostic::document_invalid("json-syntax", None)),
        }
    }

    /// The exact attachment revision.
    pub fn attachment_revision(&self) -> (r: &str)
        ensures
            r@ == self@.attachment_revision,
    {
        self.attachment_revision.as_str()
    }

    /// The stable project identity.
    pub fn project_id(&self) -> (r: &SemanticId)
        ensures
            r@ == self@.project_id,
    {
        &self.project_id
    }

    /// The bound Model pin.
    pub fn model_ref(&self) -> (r: &(String, Sha256Digest))
        ensures
            (r.0@, r.1@) == self@.model_ref,
    {
        &self.model_ref
    }

    /// The bound IR pin.
    pub fn ir_ref(&self) -> (r: &(String, Sha256Digest))
        ensures
            (r.0@, r.1@) == self@.ir_ref,
    {
        &self.ir_ref
    }

    /// Every kind rule, ordered by kind rank.
    pub fn kinds(&self) -> (r: &[KindRule])
        ensures
            rule_views(r@) == self@.kinds,
    {
        self.kinds.as_slice()
    }

    /// The rule of one kind, if the policy declares it.
    pub fn rule(&self, kind: DataKind) -> (r: Option<&KindRule>)
        ensures
            match r {
                Some(x) => rule_of(self@.kinds, kind) == Some(x@),
                None => rule_of(self@.kinds, kind) is None,
            },
    {
        let ghost rules = self@.kinds;
        let mut i: usize = 0;
        assert(rules.subrange(0, rules.len() as int) =~= rules);
        while i < self.kinds.len()
            invariant
                i <= self.kinds@.len(),
                rules == self@.kinds,
                rules.len() == self.kinds@.len(),
                rule_of(rules, kind) == rule_of(rules.subrange(i as int, rules.len() as int), kind),
            decreases self.kinds@.len() - i,
        {
            assert(rules.subrange(i as int, rules.len() as int).drop_first() =~= rules.subrange(i + 1, rules.len() as int));
            assert(rules[i as int] == self.kinds@[i as int]@);
            if self.kinds[i].kind() == kind {
                return Some(&self.kinds[i]);
            }
            i = i + 1;
        }
        None
    }

    /// The ceiling of one sink.
    pub fn sink(&self, sink: SinkName) -> (r: Option<SinkCeiling>)
        ensures
            match r {
                Some(x) => ceiling_of(self@.sinks, sink) == Some(x@),
                None => ceiling_of(self@.sinks, sink) is None,
            },
    {
        let ghost sinks = self@.sinks;
        let mut i: usize = 0;
        assert(sinks.subrange(0, sinks.len() as int) =~= sinks);
        while i < self.sinks.len()
            invariant
                i <= self.sinks@.len(),
                sinks == self@.sinks,
                sinks.len() == self.sinks@.len(),
                ceiling_of(sinks, sink) == ceiling_of(sinks.subrange(i as int, sinks.len() as int), sink),
            decreases self.sinks@.len() - i,
        {
            assert(sinks.subrange(i as int, sinks.len() as int).drop_first() =~= sinks.subrange(i + 1, sinks.len() as int));
            assert(sinks[i as int] == (self.sinks@[i as int].0, self.sinks@[i as int].1@));
            if self.sinks[i].0 == sink {
                return Some(self.sinks[i].1);
            }
            i = i + 1;
        }
        None
    }

    /// Every sink ceiling, in the closed sink order.
    pub fn sinks(&self) -> (r: &[(SinkName, SinkCeiling)])
        ensures
            sink_views(r@) == self@.sinks,
    {
        self.sinks.as_slice()
    }

    /// Every registered open question, ordered by id.
    pub fn open_questions(&self) -> (r: &[PolicyOpenQuestion])
        ensures
            policy_question_views(r@) == self@.open_questions,
    {
        self.open_questions.as_slice()
    }
}

} // verus!
