//! Validated diagnostic identities: every identifier is grammar-checked
//! at construction, and the types keep their text private.

use vstd::prelude::*;
use crate::text::{CharClass, all_in, contains_char, chars_all_in, chars_of, count_char, count_chars, first_index,
    find_char, has_prefix, is_lower, is_lower_char, is_upper, is_upper_char, lemma_first_index,
    str_starts_with};
use crate::ids::{is_semver_core, check_semver_core, slice_chars};

verus! {

/// Dotted lowercase segments `[a-z][a-z0-9-]*`, at least two of them.
pub open spec fn is_rule_id(s: Seq<char>) -> bool {
    &&& 1 <= s.len() <= 128
    &&& is_lower(s[0])
    &&& all_in(s, 0, CharClass::DottedKebab)
    &&& forall|i: int| 0 <= i < s.len() && #[trigger] s[i] == '.' ==> i + 1 < s.len() && is_lower(s[i + 1])
    &&& contains_char(s, '.')
}

/// The shared dotted-kebab segment check.
fn check_dotted_kebab(s: &Vec<char>) -> (r: bool)
    ensures
        r == (s@.len() >= 1 && is_lower(s@[0]) && all_in(s@, 0, CharClass::DottedKebab) && forall|i: int|
            0 <= i < s@.len() && #[trigger] s@[i] == '.' ==> i + 1 < s@.len() && is_lower(s@[i + 1])),
{
    if s.len() == 0 || !is_lower_char(s[0]) || !chars_all_in(s, 0, CharClass::DottedKebab) {
        return false;
    }
    let mut i: usize = 0;
    while i < s.len()
        invariant
            i <= s@.len(),
            forall|j: int| 0 <= j < i && #[trigger] s@[j] == '.' ==> j + 1 < s@.len() && is_lower(s@[j + 1]),
        decreases s@.len() - i,
    {
        if s[i] == '.' && (i + 1 >= s.len() || !is_lower_char(s[i + 1])) {
            return false;
        }
        i = i + 1;
    }
    true
}

/// Checks the rule-id grammar.
pub fn check_rule_id(text: &str) -> (r: bool)
    ensures
        r == is_rule_id(text@),
{
    let s = chars_of(text);
    let ok = s.len() <= 128 && check_dotted_kebab(&s);
    if !ok {
        return false;
    }
    let dot = find_char(&s, '.');
    proof { lemma_first_index(s@, '.'); }
    if dot < s.len() {
        assert(s@[dot as int] == '.');
        true
    } else {
        false
    }
}


/// `LEK-` then an uppercase subsystem of 2 to 12 `[A-Z0-9]` characters
/// starting with a letter, `-`, and three digits.
pub open spec fn is_diagnostic_code(s: Seq<char>) -> bool {
    &&& 10 <= s.len() <= 20
    &&& has_prefix(s, "LEK-"@)
    &&& is_upper(s[4])
    &&& forall|i: int| 4 <= i < s.len() - 4 ==> crate::text::in_class(CharClass::UpperDigit, #[trigger] s[i])
    &&& s[s.len() - 4] == '-'
    &&& all_in(s, s.len() - 3, CharClass::Digit)
}

/// Checks the diagnostic-code grammar.
pub fn check_diagnostic_code(text: &str) -> (r: bool)
    ensures
        r == is_diagnostic_code(text@),
{
    let s = chars_of(text);
    let n = s.len();
    if n < 10 || n > 20 || !str_starts_with(text, "LEK-") || !is_upper_char(s[4]) || s[n - 4] != '-' {
        return false;
    }
    let mut i: usize = 4;
    while i < n - 4
        invariant
            n == s@.len(),
            s@ == text@,
            10 <= n,
            4 <= i <= n - 4,
            forall|j: int| 4 <= j < i ==> crate::text::in_class(CharClass::UpperDigit, #[trigger] s@[j]),
        decreases n - 4 - i,
    {
        if !crate::text::class_has(CharClass::UpperDigit, s[i]) {
            assert(!crate::text::in_class(CharClass::UpperDigit, s@[i as int]));
            return false;
        }
        i = i + 1;
    }
    chars_all_in(&s, n - 3, CharClass::Digit)
}

/// `labels:version`: two or more dotted kebab labels, then an exact
/// `major.minor.patch`.
pub open spec fn is_provider_namespace(s: Seq<char>) -> bool {
    let c = first_index(s, ':');
    let labels = s.subrange(0, c);
    &&& c < s.len()
    &&& labels.len() >= 1
    &&& is_lower(labels[0])
    &&& all_in(labels, 0, CharClass::DottedKebab)
    &&& forall|i: int| 0 <= i < labels.len() && #[trigger] labels[i] == '.' ==> i + 1 < labels.len() && is_lower(labels[i + 1])
    &&& count_char(labels, '.') >= 1
    &&& is_semver_core(s.subrange(c + 1, s.len() as int))
}

/// Checks the provider-namespace grammar.
pub fn check_provider_namespace(text: &str) -> (r: bool)
    ensures
        r == is_provider_namespace(text@),
{
    let s = chars_of(text);
    let c = find_char(&s, ':');
    proof { lemma_first_index(s@, ':'); }
    if c >= s.len() {
        return false;
    }
    let labels = slice_chars(&s, 0, c);
    let version = slice_chars(&s, c + 1, s.len());
    check_dotted_kebab(&labels) && count_chars(&labels, '.') >= 1 && check_semver_core(&version)
}

/// Bounded ASCII graphic text.
pub open spec fn is_original_code(s: Seq<char>) -> bool {
    s.len() <= 128 && all_in(s, 0, CharClass::Graphic)
}

/// Checks the original-code grammar.
pub fn check_original_code(text: &str) -> (r: bool)
    ensures
        r == is_original_code(text@),
{
    let s = chars_of(text);
    s.len() <= 128 && chars_all_in(&s, 0, CharClass::Graphic)
}

/// A validated dotted rule id such as `loader.json-parse`.
#[derive(Clone, Debug, PartialEq, Eq)]
pub struct DiagnosticId(String);

/// A validated immutable `LEK-SUBSYSTEM-NNN` code.
#[derive(Clone, Debug, PartialEq, Eq)]
pub struct DiagnosticCode(String);

/// A validated message catalog key; it equals the rule id.
#[derive(Clone, Debug, PartialEq, Eq)]
pub struct MessageId(String);

/// A validated registered fix id.
#[derive(Clone, Debug, PartialEq, Eq)]
pub struct FixId(String);

/// A validated provider namespace: reverse-DNS labels plus SemVer.
#[derive(Clone, Debug, PartialEq, Eq)]
pub struct ProviderNamespace(String);

/// A validated bounded provider original code.
#[derive(Clone, Debug, PartialEq, Eq)]
pub struct OriginalCode(String);

impl View for DiagnosticId {
    type V = Seq<char>;

    closed spec fn view(&self) -> Seq<char> {
        self.0@
    }
}

impl View for DiagnosticCode {
    type V = Seq<char>;

    closed spec fn view(&self) -> Seq<char> {
        self.0@
    }
}

impl View for MessageId {
    type V = Seq<char>;

    closed spec fn view(&self) -> Seq<char> {
        self.0@
    }
}

impl View for FixId {
    type V = Seq<char>;

    closed spec fn view(&self) -> Seq<char> {
        self.0@
    }
}

impl View for ProviderNamespace {
    type V = Seq<char>;

    closed spec fn view(&self) -> Seq<char> {
        self.0@
    }
}

impl View for OriginalCode {
    type V = Seq<char>;

    closed spec fn view(&self) -> Seq<char> {
        self.0@
    }
}

impl DiagnosticId {
    /// Accept text that satisfies the rule-id grammar.
    pub fn new(text: String) -> (r: Option<DiagnosticId>)
        ensures
            r is Some <==> is_rule_id(text@),
            r matches Some(id) ==> id@ == text@,
    {
        if check_rule_id(text.as_str()) {
            Some(DiagnosticId(text))
        } else {
            None
        }
    }

    pub fn as_str(&self) -> (r: &str)
        ensures
            r@ == self@,
    {
        self.0.as_str()
    }
}

impl DiagnosticCode {
    /// Accept text that satisfies the code grammar.
    pub fn new(text: String) -> (r: Option<DiagnosticCode>)
        ensures
            r is Some <==> is_diagnostic_code(text@),
            r matches Some(code) ==> code@ == text@,
    {
        if check_diagnostic_code(text.as_str()) {
            Some(DiagnosticCode(text))
        } else {
            None
        }
    }

    pub fn as_str(&self) -> (r: &str)
        ensures
            r@ == self@,
    {
        self.0.as_str()
    }
}

impl MessageId {
    /// Accept text that satisfies the rule-id grammar.
    pub fn new(text: String) -> (r: Option<MessageId>)
        ensures
            r is Some <==> is_rule_id(text@),
            r matches Some(id) ==> id@ == text@,
    {
        if check_rule_id(text.as_str()) {
            Some(MessageId(text))
        } else {
            None
        }
    }

    pub fn as_str(&self) -> (r: &str)
        ensures
            r@ == self@,
    {
        self.0.as_str()
    }
}

impl FixId {
    /// Accept text that satisfies the rule-id grammar.
    pub fn new(text: String) -> (r: Option<FixId>)
        ensures
            r is Some <==> is_rule_id(text@),
            r matches Some(id) ==> id@ == text@,
    {
        if check_rule_id(text.as_str()) {
            Some(FixId(text))
        } else {
            None
        }
    }

    pub fn as_str(&self) -> (r: &str)
        ensures
            r@ == self@,
    {
        self.0.as_str()
    }
}

impl ProviderNamespace {
    /// Accept text that satisfies the provider-namespace grammar.
    pub fn new(text: String) -> (r: Option<ProviderNamespace>)
        ensures
            r is Some <==> is_provider_namespace(text@),
            r matches Some(ns) ==> ns@ == text@,
    {
        if check_provider_namespace(text.as_str()) {
            Some(ProviderNamespace(text))
        } else {
            None
        }
    }

    pub fn as_str(&self) -> (r: &str)
        ensures
            r@ == self@,
    {
        self.0.as_str()
    }
}

impl OriginalCode {
    /// Accept bounded ASCII graphic text.
    pub fn new(text: String) -> (r: Option<OriginalCode>)
        ensures
            r is Some <==> is_original_code(text@),
            r matches Some(code) ==> code@ == text@,
    {
        if check_original_code(text.as_str()) {
            Some(OriginalCode(text))
        } else {
            None
        }
    }

    pub fn as_str(&self) -> (r: &str)
        ensures
            r@ == self@,
    {
        self.0.as_str()
    }
}

} // verus!
