//! The closed type vocabulary of data classification: the ten data
//! kinds with their lattice rank, the subject path grammar, the two
//! secure-default profiles, the declassification condition tokens, and
//! the bounded reference and text tokens.

use vstd::prelude::*;
use vstd::string::StrSliceExecFns;
use crate::text::{CharClass, all_in, byte_len, chars_all_in, chars_of, contains_char, count_char,
    find_char, first_index, is_alnum, is_alnum_char, is_digit, is_lower, is_lower_char,
    lemma_first_index, str_eq, in_class};
use crate::ids::{is_semantic_id, check_dotted_snake, index_from, slice_chars, is_revision,
    check_revision};

verus! {

/// Why one textual member is not a valid closed-vocabulary value.
#[derive(Clone, Copy, Debug, PartialEq, Eq, Structural)]
pub enum VocabularyError {
    /// The text is empty or longer than the closed bound.
    Length,
    /// The text violates the closed spelling.
    Shape,
}

/// The closed data-kind vocabulary with its lattice rank: higher rank is
/// more restrictive; propagation widens to the highest contributing rank.
#[derive(Clone, Copy, Debug, PartialEq, Eq, Structural)]
pub enum DataKind {
    /// `public`
    Public,
    /// `internal`
    Internal,
    /// `derived`
    Derived,
    /// `retention-limited`
    RetentionLimited,
    /// `tenant-scoped`
    TenantScoped,
    /// `confidential`
    Confidential,
    /// `financial`
    Financial,
    /// `personal`
    Personal,
    /// `health`
    Health,
    /// `credential`
    Credential,
}

impl DataKind {
    /// The wire spelling of each member.
    pub open spec fn spec_text(self) -> Seq<char> {
        match self {
            DataKind::Public => "public"@,
            DataKind::Internal => "internal"@,
            DataKind::Derived => "derived"@,
            DataKind::RetentionLimited => "retention-limited"@,
            DataKind::TenantScoped => "tenant-scoped"@,
            DataKind::Confidential => "confidential"@,
            DataKind::Financial => "financial"@,
            DataKind::Personal => "personal"@,
            DataKind::Health => "health"@,
            DataKind::Credential => "credential"@,
        }
    }

    /// The exact wire spelling.
    pub fn as_str(self) -> (r: &'static str)
        ensures
            r@ == self.spec_text(),
    {
        match self {
            DataKind::Public => "public",
            DataKind::Internal => "internal",
            DataKind::Derived => "derived",
            DataKind::RetentionLimited => "retention-limited",
            DataKind::TenantScoped => "tenant-scoped",
            DataKind::Confidential => "confidential",
            DataKind::Financial => "financial",
            DataKind::Personal => "personal",
            DataKind::Health => "health",
            DataKind::Credential => "credential",
        }
    }

    /// The member spelled `t`, if any.
    pub open spec fn spec_parse(t: Seq<char>) -> Option<DataKind> {
        if t == "public"@ {
            Some(DataKind::Public)
        } else if t == "internal"@ {
            Some(DataKind::Internal)
        } else if t == "derived"@ {
            Some(DataKind::Derived)
        } else if t == "retention-limited"@ {
            Some(DataKind::RetentionLimited)
        } else if t == "tenant-scoped"@ {
            Some(DataKind::TenantScoped)
        } else if t == "confidential"@ {
            Some(DataKind::Confidential)
        } else if t == "financial"@ {
            Some(DataKind::Financial)
        } else if t == "personal"@ {
            Some(DataKind::Personal)
        } else if t == "health"@ {
            Some(DataKind::Health)
        } else if t == "credential"@ {
            Some(DataKind::Credential)
        } else {
            None
        }
    }

    /// Parse the exact wire spelling.
    pub fn parse(text: &str) -> (r: Option<DataKind>)
        ensures
            r == DataKind::spec_parse(text@),
    {
        if str_eq(text, "public") {
            Some(DataKind::Public)
        } else if str_eq(text, "internal") {
            Some(DataKind::Internal)
        } else if str_eq(text, "derived") {
            Some(DataKind::Derived)
        } else if str_eq(text, "retention-limited") {
            Some(DataKind::RetentionLimited)
        } else if str_eq(text, "tenant-scoped") {
            Some(DataKind::TenantScoped)
        } else if str_eq(text, "confidential") {
            Some(DataKind::Confidential)
        } else if str_eq(text, "financial") {
            Some(DataKind::Financial)
        } else if str_eq(text, "personal") {
            Some(DataKind::Personal)
        } else if str_eq(text, "health") {
            Some(DataKind::Health)
        } else if str_eq(text, "credential") {
            Some(DataKind::Credential)
        } else {
            None
        }
    }

    /// The lattice rank of each kind, in declaration order.
    pub open spec fn spec_rank(self) -> u8 {
        match self {
            DataKind::Public => 0,
            DataKind::Internal => 1,
            DataKind::Derived => 2,
            DataKind::RetentionLimited => 3,
            DataKind::TenantScoped => 4,
            DataKind::Confidential => 5,
            DataKind::Financial => 6,
            DataKind::Personal => 7,
            DataKind::Health => 8,
            DataKind::Credential => 9,
        }
    }

    /// The lattice rank; higher is more restrictive.
    pub fn rank(self) -> (r: u8)
        ensures
            r == self.spec_rank(),
    {
        match self {
            DataKind::Public => 0,
            DataKind::Internal => 1,
            DataKind::Derived => 2,
            DataKind::RetentionLimited => 3,
            DataKind::TenantScoped => 4,
            DataKind::Confidential => 5,
            DataKind::Financial => 6,
            DataKind::Personal => 7,
            DataKind::Health => 8,
            DataKind::Credential => 9,
        }
    }

    /// The kind of a rank.
    pub open spec fn of_rank(rank: u8) -> DataKind {
        if rank == 0 {
            DataKind::Public
        } else if rank == 1 {
            DataKind::Internal
        } else if rank == 2 {
            DataKind::Derived
        } else if rank == 3 {
            DataKind::RetentionLimited
        } else if rank == 4 {
            DataKind::TenantScoped
        } else if rank == 5 {
            DataKind::Confidential
        } else if rank == 6 {
            DataKind::Financial
        } else if rank == 7 {
            DataKind::Personal
        } else if rank == 8 {
            DataKind::Health
        } else {
            DataKind::Credential
        }
    }

    /// Sensitive for the extended-effects gate: strictly above `internal`.
    pub open spec fn spec_is_sensitive(self) -> bool {
        self.spec_rank() > 1
    }

    /// Whether the kind is sensitive: everything strictly above `internal`.
    pub fn is_sensitive(self) -> (r: bool)
        ensures
            r == self.spec_is_sensitive(),
    {
        self.rank() > DataKind::Internal.rank()
    }

    /// Whether flows of this kind may not cross tenants by default.
    pub open spec fn spec_cross_tenant_forbidden(self) -> bool {
        self is Personal || self is Credential || self is Financial || self is Health || self is TenantScoped
    }

    /// Whether flows of this kind may not cross tenant boundaries by
    /// default.
    pub fn cross_tenant_forbidden_by_default(self) -> (r: bool)
        ensures
            r == self.spec_cross_tenant_forbidden(),
    {
        match self {
            DataKind::Personal | DataKind::Credential | DataKind::Financial | DataKind::Health
            | DataKind::TenantScoped => true,
            _ => false,
        }
    }

    /// Whether the kind can ever lower itself by declassification: only
    /// `credential` is sealed.
    pub fn declassifiable(self) -> (r: bool)
        ensures
            r == !(self is Credential),
    {
        !matches!(self, DataKind::Credential)
    }

    /// Whether `self` is a strict lowering of `other` on the lattice.
    pub open spec fn spec_strict_lowering_of(self, other: DataKind) -> bool {
        self.spec_rank() < other.spec_rank()
    }

    /// Whether `self` is a strict lowering of `other` on the lattice.
    pub fn strict_lowering_of(self, other: DataKind) -> (r: bool)
        ensures
            r == self.spec_strict_lowering_of(other),
    {
        self.rank() < other.rank()
    }
}

/// Every `DataKind` spelling parses back to its member, and nothing
/// else parses to that member.
pub proof fn lemma_data_kind_round_trip(x: DataKind, t: Seq<char>)
    ensures
        DataKind::spec_parse(x.spec_text()) == Some(x),
        DataKind::spec_parse(t) == Some(x) ==> t == x.spec_text(),
{
    reveal_strlit("public");
    reveal_strlit("internal");
    reveal_strlit("derived");
    reveal_strlit("retention-limited");
    reveal_strlit("tenant-scoped");
    reveal_strlit("confidential");
    reveal_strlit("financial");
    reveal_strlit("personal");
    reveal_strlit("health");
    reveal_strlit("credential");
    assert("public"@.len() == 6);
    assert("internal"@.len() == 8);
    assert("derived"@.len() == 7);
    assert("retention-limited"@.len() == 17);
    assert("tenant-scoped"@.len() == 13);
    assert("confidential"@.len() == 12);
    assert("financial"@.len() == 9);
    assert("personal"@.len() == 8);
    assert("health"@.len() == 6);
    assert("credential"@.len() == 10);
    assert("public"@[0] == 'p');
    assert("health"@[0] == 'h');
    assert("internal"@[0] == 'i');
    assert("personal"@[0] == 'p');
}

/// The rank is a bijection between the kinds and `0..=9`: every kind
/// has a distinct rank, and `credential` is the top.
pub proof fn lemma_rank_bijective(a: DataKind, b: DataKind)
    ensures
        a.spec_rank() <= 9,
        DataKind::of_rank(a.spec_rank()) == a,
        a.spec_rank() == b.spec_rank() ==> a == b,
        a.spec_rank() <= DataKind::Credential.spec_rank(),
{
}

/// Strict lowering is a strict order: irreflexive, asymmetric, and
/// transitive; `credential` is never a strict lowering of anything.
pub proof fn lemma_strict_lowering_is_strict_order(a: DataKind, b: DataKind, c: DataKind)
    ensures
        !a.spec_strict_lowering_of(a),
        a.spec_strict_lowering_of(b) ==> !b.spec_strict_lowering_of(a),
        a.spec_strict_lowering_of(b) && b.spec_strict_lowering_of(c) ==> a.spec_strict_lowering_of(c),
        !DataKind::Credential.spec_strict_lowering_of(a),
        a != b ==> a.spec_strict_lowering_of(b) || b.spec_strict_lowering_of(a),
{
}

/// The secure-defaults profile of one attachment.
#[derive(Clone, Copy, Debug, PartialEq, Eq, Structural)]
pub enum Profile {
    /// `default`
    Default,
    /// `strict`
    Strict,
}

impl Profile {
    /// The wire spelling of each member.
    pub open spec fn spec_text(self) -> Seq<char> {
        match self {
            Profile::Default => "default"@,
            Profile::Strict => "strict"@,
        }
    }

    /// The exact wire spelling.
    pub fn as_str(self) -> (r: &'static str)
        ensures
            r@ == self.spec_text(),
    {
        match self {
            Profile::Default => "default",
            Profile::Strict => "strict",
        }
    }

    /// The member spelled `t`, if any.
    pub open spec fn spec_parse(t: Seq<char>) -> Option<Profile> {
        if t == "default"@ {
            Some(Profile::Default)
        } else if t == "strict"@ {
            Some(Profile::Strict)
        } else {
            None
        }
    }

    /// Parse the exact wire spelling.
    pub fn parse(text: &str) -> (r: Option<Profile>)
        ensures
            r == Profile::spec_parse(text@),
    {
        if str_eq(text, "default") {
            Some(Profile::Default)
        } else if str_eq(text, "strict") {
            Some(Profile::Strict)
        } else {
            None
        }
    }
}

/// Every `Profile` spelling parses back to its member, and nothing
/// else parses to that member.
pub proof fn lemma_profile_round_trip(x: Profile, t: Seq<char>)
    ensures
        Profile::spec_parse(x.spec_text()) == Some(x),
        Profile::spec_parse(t) == Some(x) ==> t == x.spec_text(),
{
    reveal_strlit("default");
    reveal_strlit("strict");
    assert("default"@.len() == 7);
    assert("strict"@.len() == 6);
}

/// One closed declassification condition token.
#[derive(Clone, Copy, Debug, PartialEq, Eq, Structural)]
pub enum Condition {
    /// `aggregated`
    Aggregated,
    /// `anonymized`
    Anonymized,
    /// `consent-obtained`
    ConsentObtained,
    /// `pseudonymized`
    Pseudonymized,
    /// `suppressed`
    Suppressed,
}

impl Condition {
    /// The wire spelling of each member.
    pub open spec fn spec_text(self) -> Seq<char> {
        match self {
            Condition::Aggregated => "aggregated"@,
            Condition::Anonymized => "anonymized"@,
            Condition::ConsentObtained => "consent-obtained"@,
            Condition::Pseudonymized => "pseudonymized"@,
            Condition::Suppressed => "suppressed"@,
        }
    }

    /// The exact wire spelling.
    pub fn as_str(self) -> (r: &'static str)
        ensures
            r@ == self.spec_text(),
    {
        match self {
            Condition::Aggregated => "aggregated",
            Condition::Anonymized => "anonymized",
            Condition::ConsentObtained => "consent-obtained",
            Condition::Pseudonymized => "pseudonymized",
            Condition::Suppressed => "suppressed",
        }
    }

    /// The member spelled `t`, if any.
    pub open spec fn spec_parse(t: Seq<char>) -> Option<Condition> {
        if t == "aggregated"@ {
            Some(Condition::Aggregated)
        } else if t == "anonymized"@ {
            Some(Condition::Anonymized)
        } else if t == "consent-obtained"@ {
            Some(Condition::ConsentObtained)
        } else if t == "pseudonymized"@ {
            Some(Condition::Pseudonymized)
        } else if t == "suppressed"@ {
            Some(Condition::Suppressed)
        } else {
            None
        }
    }

    /// Parse the exact wire spelling.
    pub fn parse(text: &str) -> (r: Option<Condition>)
        ensures
            r == Condition::spec_parse(text@),
    {
        if str_eq(text, "aggregated") {
            Some(Condition::Aggregated)
        } else if str_eq(text, "anonymized") {
            Some(Condition::Anonymized)
        } else if str_eq(text, "consent-obtained") {
            Some(Condition::ConsentObtained)
        } else if str_eq(text, "pseudonymized") {
            Some(Condition::Pseudonymized)
        } else if str_eq(text, "suppressed") {
            Some(Condition::Suppressed)
        } else {
            None
        }
    }

    /// The canonical (byte) order position of each condition.
    pub open spec fn spec_order(self) -> u8 {
        match self {
            Condition::Aggregated => 0,
            Condition::Anonymized => 1,
            Condition::ConsentObtained => 2,
            Condition::Pseudonymized => 3,
            Condition::Suppressed => 4,
        }
    }

    /// The canonical (byte) order position.
    pub fn order(self) -> (r: u8)
        ensures
            r == self.spec_order(),
    {
        match self {
            Condition::Aggregated => 0,
            Condition::Anonymized => 1,
            Condition::ConsentObtained => 2,
            Condition::Pseudonymized => 3,
            Condition::Suppressed => 4,
        }
    }
}

/// Every `Condition` spelling parses back to its member, and nothing
/// else parses to that member.
pub proof fn lemma_condition_round_trip(x: Condition, t: Seq<char>)
    ensures
        Condition::spec_parse(x.spec_text()) == Some(x),
        Condition::spec_parse(t) == Some(x) ==> t == x.spec_text(),
{
    reveal_strlit("aggregated");
    reveal_strlit("anonymized");
    reveal_strlit("consent-obtained");
    reveal_strlit("pseudonymized");
    reveal_strlit("suppressed");
    assert("aggregated"@.len() == 10);
    assert("anonymized"@.len() == 10);
    assert("consent-obtained"@.len() == 16);
    assert("pseudonymized"@.len() == 13);
    assert("suppressed"@.len() == 10);
    assert("aggregated"@[1] == 'g');
    assert("anonymized"@[1] == 'n');
    assert("aggregated"@[0] == 'a');
    assert("suppressed"@[0] == 's');
    assert("anonymized"@[0] == 'a');
}
/// One field token of a subject path: `[a-z][a-z0-9_]*`, at most 64
/// characters.
pub open spec fn is_field_token(f: Seq<char>) -> bool {
    1 <= f.len() <= 64 && is_lower(f[0]) && all_in(f, 1, CharClass::LowerDigitUnderscore)
}

fn check_field_token(f: &Vec<char>) -> (r: bool)
    ensures
        r == is_field_token(f@),
{
    f.len() >= 1 && f.len() <= 64 && is_lower_char(f[0]) && chars_all_in(f, 1, CharClass::LowerDigitUnderscore)
}

/// The head of a subject path: the text before the first `/`.
pub open spec fn subject_head(s: Seq<char>) -> Seq<char> {
    s.subrange(0, first_index(s, '/'))
}

/// The field segments of a subject path: the texts between the `/`s
/// after the head.
pub open spec fn subject_fields(s: Seq<char>) -> Seq<Seq<char>> {
    let h = first_index(s, '/');
    if h >= s.len() {
        Seq::empty()
    } else {
        let p2 = index_from(s, '/', h + 1);
        if p2 >= s.len() {
            seq![s.subrange(h + 1, s.len() as int)]
        } else {
            seq![s.subrange(h + 1, p2), s.subrange(p2 + 1, s.len() as int)]
        }
    }
}

/// The subject-path shape: a dotted semantic id, then at most two
/// `/`-separated field tokens.
pub open spec fn subject_shape(s: Seq<char>) -> bool {
    let head = subject_head(s);
    let fields = subject_fields(s);
    &&& contains_char(head, '.')
    &&& is_semantic_id(head)
    &&& forall|i: int| 0 <= i < fields.len() ==> is_field_token(#[trigger] fields[i])
}

/// Why a text is not a subject path, if it is not.
pub open spec fn subject_error(s: Seq<char>) -> Option<VocabularyError> {
    if byte_len(s) < 1 || byte_len(s) > 324 {
        Some(VocabularyError::Length)
    } else if !subject_shape(s) {
        Some(VocabularyError::Shape)
    } else {
        None
    }
}

/// One classification subject: a semantic id alone (definition level)
/// or a field path under it. The exact text is preserved.
#[derive(Debug, PartialEq, Eq)]
pub struct SubjectPath(String);

impl Clone for SubjectPath {
    fn clone(&self) -> (r: SubjectPath)
        ensures
            r@ == self@,
    {
        proof { use_type_invariant(self); }
        SubjectPath(self.0.clone())
    }
}

impl View for SubjectPath {
    type V = Seq<char>;

    closed spec fn view(&self) -> Seq<char> {
        self.0@
    }
}

impl SubjectPath {
    #[verifier::type_invariant]
    spec fn well_formed(self) -> bool {
        subject_shape(self.0@)
    }

    /// Every subject path has the subject shape.
    pub fn well_formed_shape(&self)
        ensures
            subject_shape(self@),
    {
        proof { use_type_invariant(self); }
    }

    /// Validate and keep the exact text of one subject path.
    pub fn parse(text: &str) -> (r: Result<SubjectPath, VocabularyError>)
        ensures
            match r {
                Ok(x) => x@ == text@ && subject_error(text@) is None,
                Err(e) => subject_error(text@) == Some(e),
            },
    {
        let n = text.as_bytes().len();
        if n < 1 || n > 324 {
            return Err(VocabularyError::Length);
        }
        let s = chars_of(text);
        let h = find_char(&s, '/');
        proof { lemma_first_index(s@, '/'); }
        let head = slice_chars(&s, 0, h);
        let dot = find_char(&head, '.');
        proof { lemma_first_index(head@, '.'); }
        if dot >= head.len() {
            return Err(VocabularyError::Shape);
        }
        assert(head@[dot as int] == '.');
        assert(contains_char(head@, '.'));
        if head.len() > 192 || !check_dotted_snake(&head) || crate::text::count_chars(&head, '.') > 2 {
            return Err(VocabularyError::Shape);
        }
        assert(is_semantic_id(subject_head(text@)));
        if h < s.len() {
            let rest = slice_chars(&s, h + 1, s.len());
            let k = find_char(&rest, '/');
            proof {
                lemma_first_index(rest@, '/');
                assert(s@.subrange(h + 1, s@.len() as int) == rest@);
            }
            let f1 = slice_chars(&rest, 0, k);
            proof {
                assert(f1@ =~= s@.subrange(h + 1, h + 1 + k));
            }
            if !check_field_token(&f1) {
                proof { assert(f1@ == subject_fields(s@)[0]); }
                return Err(VocabularyError::Shape);
            }
            if k < rest.len() {
                let f2 = slice_chars(&rest, k + 1, rest.len());
                proof {
                    assert(f2@ =~= s@.subrange(h + 1 + k + 1, s@.len() as int));
                }
                if !check_field_token(&f2) {
                    proof { assert(f2@ == subject_fields(s@)[1]); }
                    return Err(VocabularyError::Shape);
                }
                proof {
                    assert(subject_fields(s@) =~= seq![f1@, f2@]);
                    assert(is_field_token(subject_fields(s@)[0]));
                    assert(is_field_token(subject_fields(s@)[1]));
                }
            } else {
                proof {
                    assert(f1@ =~= s@.subrange(h + 1, s@.len() as int));
                    assert(subject_fields(s@) =~= seq![f1@]);
                    assert(is_field_token(subject_fields(s@)[0]));
                }
            }
        } else {
            assert(subject_fields(s@) =~= Seq::<Seq<char>>::empty());
        }
        assert(subject_shape(text@));
        Ok(SubjectPath(text.to_owned()))
    }

    /// The semantic id of the addressed definition (the head segment).
    pub fn semantic_id(&self) -> (r: &str)
        ensures
            r@ == subject_head(self@),
    {
        let s = chars_of(self.0.as_str());
        let h = find_char(&s, '/');
        proof { lemma_first_index(s@, '/'); }
        self.0.as_str().substring_char(0, h)
    }

    /// The field path segments under the semantic id, in order.
    pub fn field_segments(&self) -> (r: Vec<String>)
        ensures
            r@.map_values(|f: String| f@) == subject_fields(self@),
    {
        let text = self.0.as_str();
        let s = chars_of(text);
        let h = find_char(&s, '/');
        proof { lemma_first_index(s@, '/'); }
        let mut out: Vec<String> = Vec::new();
        if h < s.len() {
            let rest = slice_chars(&s, h + 1, s.len());
            let k = find_char(&rest, '/');
            proof { lemma_first_index(rest@, '/'); }
            out.push(text.substring_char(h + 1, h + 1 + k).to_owned());
            if k < rest.len() {
                out.push(text.substring_char(h + 1 + k + 1, s.len()).to_owned());
            }
            proof {
                assert(rest@ == s@.subrange(h + 1, s@.len() as int));
                assert(out@.map_values(|f: String| f@) =~= subject_fields(self@));
            }
        } else {
            proof { assert(out@.map_values(|f: String| f@) =~= subject_fields(self@)); }
        }
        out
    }

    /// Whether the subject addresses a definition wholesale (no `/`).
    pub fn is_definition_level(&self) -> (r: bool)
        ensures
            r == !contains_char(self@, '/'),
    {
        !crate::text::str_contains_char(self.0.as_str(), '/')
    }

    /// The exact validated text.
    pub fn as_str(&self) -> (r: &str)
        ensures
            r@ == self@,
    {
        self.0.as_str()
    }
}

/// A definition-level subject has no field segments, and a field-level
/// one has one or two.
pub proof fn lemma_subject_levels(s: Seq<char>)
    ensures
        !contains_char(s, '/') <==> subject_fields(s).len() == 0,
        subject_fields(s).len() <= 2,
        !contains_char(s, '/') ==> subject_head(s) == s,
{
    lemma_first_index(s, '/');
    assert(s.subrange(0, s.len() as int) =~= s);
}

/// One opaque review reference: 8 to 128 bytes of `[A-Za-z0-9._:/-]`
/// starting with an alphanumeric.
pub open spec fn review_ref_shape(s: Seq<char>) -> bool {
    s.len() >= 1 && is_alnum(s[0]) && all_in(s, 1, CharClass::Token)
}

/// Why a text is not a valid review reference, if it is not.
pub open spec fn review_ref_error(s: Seq<char>) -> Option<VocabularyError> {
    if byte_len(s) < 8 || byte_len(s) > 128 {
        Some(VocabularyError::Length)
    } else if !review_ref_shape(s) {
        Some(VocabularyError::Shape)
    } else {
        None
    }
}

#[derive(Debug, PartialEq, Eq)]
pub struct ReviewRef(String);

impl Clone for ReviewRef {
    fn clone(&self) -> (r: ReviewRef)
        ensures
            r@ == self@,
    {
        ReviewRef(self.0.clone())
    }
}

impl View for ReviewRef {
    type V = Seq<char>;

    closed spec fn view(&self) -> Seq<char> {
        self.0@
    }
}

impl ReviewRef {
    /// Validate and keep the exact text.
    pub fn parse(text: &str) -> (r: Result<ReviewRef, VocabularyError>)
        ensures
            match r {
                Ok(x) => x@ == text@ && review_ref_error(text@) is None,
                Err(e) => review_ref_error(text@) == Some(e),
            },
    {
        let n = text.as_bytes().len();
        if n < 8 || n > 128 {
            return Err(VocabularyError::Length);
        }
        let s = chars_of(text);
        if s.len() < 1 || !(is_alnum_char(s[0])) || !chars_all_in(&s, 1, CharClass::Token) {
            return Err(VocabularyError::Shape);
        }
        Ok(ReviewRef(text.to_owned()))
    }

    /// The exact validated text.
    pub fn as_str(&self) -> (r: &str)
        ensures
            r@ == self@,
    {
        self.0.as_str()
    }
}


/// One policy document id: 1 to 192 bytes, a lowercase letter or digit,
/// then `[A-Za-z0-9._:/#-]`.
pub open spec fn policy_ref_shape(s: Seq<char>) -> bool {
    s.len() >= 1 && (is_lower(s[0]) || is_digit(s[0])) && all_in(s, 1, CharClass::PolicyToken)
}

/// Why a text is not a valid policy reference, if it is not.
pub open spec fn policy_ref_error(s: Seq<char>) -> Option<VocabularyError> {
    if byte_len(s) < 1 || byte_len(s) > 192 {
        Some(VocabularyError::Length)
    } else if !policy_ref_shape(s) {
        Some(VocabularyError::Shape)
    } else {
        None
    }
}

#[derive(Debug, PartialEq, Eq)]
pub struct PolicyRef(String);

impl Clone for PolicyRef {
    fn clone(&self) -> (r: PolicyRef)
        ensures
            r@ == self@,
    {
        PolicyRef(self.0.clone())
    }
}

impl View for PolicyRef {
    type V = Seq<char>;

    closed spec fn view(&self) -> Seq<char> {
        self.0@
    }
}

impl PolicyRef {
    /// Validate and keep the exact text.
    pub fn parse(text: &str) -> (r: Result<PolicyRef, VocabularyError>)
        ensures
            match r {
                Ok(x) => x@ == text@ && policy_ref_error(text@) is None,
                Err(e) => policy_ref_error(text@) == Some(e),
            },
    {
        let n = text.as_bytes().len();
        if n < 1 || n > 192 {
            return Err(VocabularyError::Length);
        }
        let s = chars_of(text);
        if s.len() < 1 || !((is_lower_char(s[0]) || crate::text::is_digit_char(s[0]))) || !chars_all_in(&s, 1, CharClass::PolicyToken) {
            return Err(VocabularyError::Shape);
        }
        Ok(PolicyRef(text.to_owned()))
    }

    /// The exact validated text.
    pub fn as_str(&self) -> (r: &str)
        ensures
            r@ == self@,
    {
        self.0.as_str()
    }
}


/// One retention class token `[a-z][a-z0-9_-]*`, 1 to 64 bytes.
pub open spec fn retention_class_shape(s: Seq<char>) -> bool {
    s.len() >= 1 && is_lower(s[0]) && all_in(s, 1, CharClass::LowerDigitUnderscoreHyphen)
}

/// Why a text is not a valid retention class, if it is not.
pub open spec fn retention_class_error(s: Seq<char>) -> Option<VocabularyError> {
    if byte_len(s) < 1 || byte_len(s) > 64 {
        Some(VocabularyError::Length)
    } else if !retention_class_shape(s) {
        Some(VocabularyError::Shape)
    } else {
        None
    }
}

#[derive(Debug, PartialEq, Eq)]
pub struct RetentionClass(String);

impl Clone for RetentionClass {
    fn clone(&self) -> (r: RetentionClass)
        ensures
            r@ == self@,
    {
        RetentionClass(self.0.clone())
    }
}

impl View for RetentionClass {
    type V = Seq<char>;

    closed spec fn view(&self) -> Seq<char> {
        self.0@
    }
}

impl RetentionClass {
    /// Validate and keep the exact text.
    pub fn parse(text: &str) -> (r: Result<RetentionClass, VocabularyError>)
        ensures
            match r {
                Ok(x) => x@ == text@ && retention_class_error(text@) is None,
                Err(e) => retention_class_error(text@) == Some(e),
            },
    {
        let n = text.as_bytes().len();
        if n < 1 || n > 64 {
            return Err(VocabularyError::Length);
        }
        let s = chars_of(text);
        if s.len() < 1 || !(is_lower_char(s[0])) || !chars_all_in(&s, 1, CharClass::LowerDigitUnderscoreHyphen) {
            return Err(VocabularyError::Shape);
        }
        Ok(RetentionClass(text.to_owned()))
    }

    /// The exact validated text.
    pub fn as_str(&self) -> (r: &str)
        ensures
            r@ == self@,
    {
        self.0.as_str()
    }
}


/// One bounded label token `[a-zA-Z0-9][a-zA-Z0-9._:/-]*`, 1 to 64 bytes.
pub open spec fn label_shape(s: Seq<char>) -> bool {
    s.len() >= 1 && is_alnum(s[0]) && all_in(s, 1, CharClass::Token)
}

/// Why a text is not a valid label, if it is not.
pub open spec fn label_error(s: Seq<char>) -> Option<VocabularyError> {
    if byte_len(s) < 1 || byte_len(s) > 64 {
        Some(VocabularyError::Length)
    } else if !label_shape(s) {
        Some(VocabularyError::Shape)
    } else {
        None
    }
}

#[derive(Debug, PartialEq, Eq)]
pub struct Label(String);

impl Clone for Label {
    fn clone(&self) -> (r: Label)
        ensures
            r@ == self@,
    {
        Label(self.0.clone())
    }
}

impl View for Label {
    type V = Seq<char>;

    closed spec fn view(&self) -> Seq<char> {
        self.0@
    }
}

impl Label {
    /// Validate and keep the exact text.
    pub fn parse(text: &str) -> (r: Result<Label, VocabularyError>)
        ensures
            match r {
                Ok(x) => x@ == text@ && label_error(text@) is None,
                Err(e) => label_error(text@) == Some(e),
            },
    {
        let n = text.as_bytes().len();
        if n < 1 || n > 64 {
            return Err(VocabularyError::Length);
        }
        let s = chars_of(text);
        if s.len() < 1 || !(is_alnum_char(s[0])) || !chars_all_in(&s, 1, CharClass::Token) {
            return Err(VocabularyError::Shape);
        }
        Ok(Label(text.to_owned()))
    }

    /// The exact validated text.
    pub fn as_str(&self) -> (r: &str)
        ensures
            r@ == self@,
    {
        self.0.as_str()
    }
}


/// One bounded declaration text: 1 to 256 bytes of the closed printable
/// subset, starting with an alphanumeric.
pub open spec fn bounded_text_shape(s: Seq<char>) -> bool {
    s.len() >= 1 && is_alnum(s[0]) && all_in(s, 1, CharClass::Prose)
}

/// Why a text is not a valid bounded text, if it is not.
pub open spec fn bounded_text_error(s: Seq<char>) -> Option<VocabularyError> {
    if byte_len(s) < 1 || byte_len(s) > 256 {
        Some(VocabularyError::Length)
    } else if !bounded_text_shape(s) {
        Some(VocabularyError::Shape)
    } else {
        None
    }
}

#[derive(Debug, PartialEq, Eq)]
pub struct BoundedText(String);

impl Clone for BoundedText {
    fn clone(&self) -> (r: BoundedText)
        ensures
            r@ == self@,
    {
        BoundedText(self.0.clone())
    }
}

impl View for BoundedText {
    type V = Seq<char>;

    closed spec fn view(&self) -> Seq<char> {
        self.0@
    }
}

impl BoundedText {
    /// Validate and keep the exact text.
    pub fn parse(text: &str) -> (r: Result<BoundedText, VocabularyError>)
        ensures
            match r {
                Ok(x) => x@ == text@ && bounded_text_error(text@) is None,
                Err(e) => bounded_text_error(text@) == Some(e),
            },
    {
        let n = text.as_bytes().len();
        if n < 1 || n > 256 {
            return Err(VocabularyError::Length);
        }
        let s = chars_of(text);
        if s.len() < 1 || !(is_alnum_char(s[0])) || !chars_all_in(&s, 1, CharClass::Prose) {
            return Err(VocabularyError::Shape);
        }
        Ok(BoundedText(text.to_owned()))
    }

    /// The exact validated text.
    pub fn as_str(&self) -> (r: &str)
        ensures
            r@ == self@,
    {
        self.0.as_str()
    }
}


/// One bounded open-question id (the label grammar).
#[derive(Debug, PartialEq, Eq)]
pub struct QuestionId(String);

impl Clone for QuestionId {
    fn clone(&self) -> (r: QuestionId)
        ensures
            r@ == self@,
    {
        QuestionId(self.0.clone())
    }
}

impl View for QuestionId {
    type V = Seq<char>;

    closed spec fn view(&self) -> Seq<char> {
        self.0@
    }
}

impl QuestionId {
    /// Validate and keep the exact text of one open-question id.
    pub fn parse(text: &str) -> (r: Result<QuestionId, VocabularyError>)
        ensures
            match r {
                Ok(x) => x@ == text@ && label_error(text@) is None,
                Err(e) => label_error(text@) == Some(e),
            },
    {
        match Label::parse(text) {
            Ok(label) => Ok(QuestionId(label.as_str().to_owned())),
            Err(e) => Err(e),
        }
    }

    /// The exact validated text.
    pub fn as_str(&self) -> (r: &str)
        ensures
            r@ == self@,
    {
        self.0.as_str()
    }
}

/// The exact `YYYY-MM-DDTHH:MM:SSZ` shape.
pub open spec fn is_timestamp(s: Seq<char>) -> bool {
    &&& s.len() == 20
    &&& s[4] == '-' && s[7] == '-' && s[10] == 'T' && s[13] == ':' && s[16] == ':' && s[19] == 'Z'
    &&& forall|i: int| 0 <= i < 20 && i != 4 && i != 7 && i != 10 && i != 13 && i != 16 && i != 19
        ==> is_digit(#[trigger] s[i])
}

/// One exact ISO-8601 UTC timestamp; lexicographic order is time order.
#[derive(Debug, PartialEq, Eq, PartialOrd, Ord)]
pub struct IsoTimestamp(String);

impl Clone for IsoTimestamp {
    fn clone(&self) -> (r: IsoTimestamp)
        ensures
            r@ == self@,
    {
        IsoTimestamp(self.0.clone())
    }
}

impl View for IsoTimestamp {
    type V = Seq<char>;

    closed spec fn view(&self) -> Seq<char> {
        self.0@
    }
}

impl IsoTimestamp {
    /// Validate and keep the exact text of one timestamp.
    pub fn parse(text: &str) -> (r: Result<IsoTimestamp, VocabularyError>)
        ensures
            match r {
                Ok(x) => x@ == text@ && is_timestamp(text@),
                Err(e) => e == VocabularyError::Shape && !is_timestamp(text@),
            },
    {
        let s = chars_of(text);
        if s.len() != 20 || s[4] != '-' || s[7] != '-' || s[10] != 'T' || s[13] != ':' || s[16] != ':'
            || s[19] != 'Z' {
            return Err(VocabularyError::Shape);
        }
        let mut i: usize = 0;
        while i < 20
            invariant
                s@ == text@,
                s@.len() == 20,
                i <= 20,
                forall|j: int| 0 <= j < i && j != 4 && j != 7 && j != 10 && j != 13 && j != 16 && j != 19
                    ==> is_digit(#[trigger] s@[j]),
            decreases 20 - i,
        {
            if i != 4 && i != 7 && i != 10 && i != 13 && i != 16 && i != 19 && !crate::text::is_digit_char(s[i]) {
                return Err(VocabularyError::Shape);
            }
            i = i + 1;
        }
        Ok(IsoTimestamp(text.to_owned()))
    }

    /// Whether this instant comes strictly before `other`: the fixed
    /// shape makes code-point order time order.
    pub fn is_before(&self, other: &IsoTimestamp) -> (r: bool)
        ensures
            r == crate::text::text_lt(self@, other@),
    {
        crate::text::str_lt(self.0.as_str(), other.0.as_str())
    }

    /// The exact validated text.
    pub fn as_str(&self) -> (r: &str)
        ensures
            r@ == self@,
    {
        self.0.as_str()
    }
}

/// A SemVer build suffix: dot-separated non-empty `[0-9A-Za-z-]`
/// identifiers.
pub open spec fn is_build(p: Seq<char>) -> bool
    decreases p.len(),
{
    let k = first_index(p, '.');
    if k >= p.len() {
        p.len() >= 1 && all_in(p, 0, CharClass::AlnumHyphen)
    } else {
        proof { lemma_first_index(p, '.'); }
        k >= 1 && all_in(p.subrange(0, k), 0, CharClass::AlnumHyphen) && is_build(p.subrange(k + 1, p.len() as int))
    }
}

fn check_build(p: &Vec<char>) -> (r: bool)
    ensures
        r == is_build(p@),
    decreases p@.len(),
{
    let k = find_char(p, '.');
    proof { lemma_first_index(p@, '.'); }
    if k >= p.len() {
        p.len() >= 1 && chars_all_in(p, 0, CharClass::AlnumHyphen)
    } else {
        let head = slice_chars(p, 0, k);
        let tail = slice_chars(p, k + 1, p.len());
        k >= 1 && chars_all_in(&head, 0, CharClass::AlnumHyphen) && check_build(&tail)
    }
}

/// Any SemVer version: a canonical revision optionally followed by `+`
/// and build metadata.
pub open spec fn is_semver_version(s: Seq<char>) -> bool {
    let b = first_index(s, '+');
    &&& is_revision(s.subrange(0, b))
    &&& (b < s.len() ==> is_build(s.subrange(b + 1, s.len() as int)))
}

/// A dotted kebab namespace `[a-z][a-z0-9-]*(.[a-z][a-z0-9-]*)*`.
pub open spec fn is_kebab_namespace(s: Seq<char>) -> bool {
    &&& s.len() >= 1
    &&& is_lower(s[0])
    &&& all_in(s, 0, CharClass::DottedKebab)
    &&& forall|i: int| 0 <= i < s.len() && #[trigger] s[i] == '.' ==> i + 1 < s.len() && is_lower(s[i + 1])
}

/// The contract-reference shape: `namespace@version`.
pub open spec fn is_contract_ref(s: Seq<char>) -> bool {
    let a = first_index(s, '@');
    let ns = s.subrange(0, a);
    &&& a < s.len()
    &&& is_kebab_namespace(ns)
    &&& ns.len() <= 128
    &&& is_semver_version(s.subrange(a + 1, s.len() as int))
}

/// One exact namespaced contract id with a SemVer tail.
#[derive(Debug, PartialEq, Eq)]
pub struct ContractRef(String);

impl Clone for ContractRef {
    fn clone(&self) -> (r: ContractRef)
        ensures
            r@ == self@,
    {
        ContractRef(self.0.clone())
    }
}

impl View for ContractRef {
    type V = Seq<char>;

    closed spec fn view(&self) -> Seq<char> {
        self.0@
    }
}

impl ContractRef {
    /// Validate and keep the exact text of one contract reference.
    pub fn parse(text: &str) -> (r: Result<ContractRef, VocabularyError>)
        ensures
            match r {
                Ok(x) => x@ == text@ && is_contract_ref(text@),
                Err(e) => e == VocabularyError::Shape && !is_contract_ref(text@),
            },
    {
        let s = chars_of(text);
        let a = find_char(&s, '@');
        proof { lemma_first_index(s@, '@'); }
        if a >= s.len() {
            return Err(VocabularyError::Shape);
        }
        let ns = slice_chars(&s, 0, a);
        if ns.len() > 128 || !check_kebab_namespace(&ns) {
            return Err(VocabularyError::Shape);
        }
        let tail = slice_chars(&s, a + 1, s.len());
        let b = find_char(&tail, '+');
        proof { lemma_first_index(tail@, '+'); }
        let main = slice_chars(&tail, 0, b);
        if !check_revision_chars(&main) {
            return Err(VocabularyError::Shape);
        }
        if b < tail.len() {
            let build = slice_chars(&tail, b + 1, tail.len());
            if !check_build(&build) {
                return Err(VocabularyError::Shape);
            }
        }
        Ok(ContractRef(text.to_owned()))
    }

    /// The exact validated text.
    pub fn as_str(&self) -> (r: &str)
        ensures
            r@ == self@,
    {
        self.0.as_str()
    }
}

fn check_kebab_namespace(s: &Vec<char>) -> (r: bool)
    ensures
        r == is_kebab_namespace(s@),
{
    if s.len() == 0 || !is_lower_char(s[0]) || !chars_all_in(s, 0, CharClass::DottedKebab) {
        return false;
    }
    let mut i: usize = 0;
    while i < s.len()
        invariant
            i <= s@.len(),
            forall|j: int| 0 <= j < i && #[trigger] s@[j] == '.' ==> j + 1 < s@.len() && is_lower(s@[j + 1]),
        decreases s@.len() - i,
    {
        if s[i] == '.' && (i + 1 >= s.len() || !is_lower_char(s[i + 1])) {
            return false;
        }
        i = i + 1;
    }
    true
}

fn check_revision_chars(s: &Vec<char>) -> (r: bool)
    ensures
        r == is_revision(s@),
{
    let h = find_char(s, '-');
    proof { lemma_first_index(s@, '-'); }
    let core = slice_chars(s, 0, h);
    if !crate::ids::check_semver_core(&core) {
        return false;
    }
    if h < s.len() {
        let pre = slice_chars(s, h + 1, s.len());
        crate::ids::check_prerelease(&pre)
    } else {
        true
    }
}

} // verus!
