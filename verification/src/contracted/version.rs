//! The closed identity and bounds of contracted mode, and the grammars
//! of the identifiers a conformed-binding registry carries.

use vstd::prelude::*;
use vstd::string::StrSliceExecFns;
use crate::text::{CharClass, all_in, byte_len, chars_of, chars_all_in, find_char, first_index,
    has_prefix, in_class, is_control, is_digit, is_lower, lemma_first_index};
use crate::digest::is_digest_text;
use crate::ids::slice_chars;

verus! {

/// The closed module family label used in receipts and diagnostics.
pub const FAMILY: &'static str = "contracted";

/// The conformed-binding registry wire version.
pub const VERSION: &'static str = "1.0.0";

/// The exact `schema_version` literal of a persisted registry.
pub const SCHEMA_VERSION: &'static str = "lekalo/conformed-binding-registry/v1.0.0";

/// The registry identity of the conformed-binding wire.
pub const IDENTITY: &'static str = "dev.lekalo.conformed-binding-registry@1.0.0";

/// The single mode recorded here.
pub const MODE: &'static str = "contracted";

/// The runtime home of the conformed registry.
pub const REGISTRY_DIR: &'static str = ".lekalo/import/contracted";

/// The registry file name inside [`REGISTRY_DIR`].
pub const REGISTRY_NAME: &'static str = "registry.json";

/// The exact schema version of an adapter declaration document.
pub const DECLARATION_SCHEMA_VERSION: &'static str = "lekalo/contracted-declaration/v1.0.0";

/// Maximum accepted declaration document bytes (the registry bound).
pub const MAX_DECLARATION_BYTES: usize = 8 * 1024 * 1024;

/// Maximum accepted registry document bytes.
pub const MAX_REGISTRY_BYTES: usize = 8 * 1024 * 1024;

/// Maximum symbols per registry.
pub const MAX_SYMBOLS: usize = 10_000;

/// Maximum support artifacts per registry.
pub const MAX_SUPPORT_ARTIFACTS: usize = 5_000;

/// Maximum native tests or gates attached to one symbol.
pub const MAX_ATTACHMENTS: usize = 64;

/// Maximum support artifacts owned by one symbol.
pub const MAX_SYMBOL_ARTIFACTS: usize = 32;

/// Maximum history entries on one binding.
pub const MAX_HISTORY: usize = 32;

/// The exact `sha256:<64 lowercase hex>` grammar.
pub fn is_sha256(text: &str) -> (r: bool)
    ensures
        r == is_digest_text(text@),
{
    crate::digest::is_digest(text)
}

/// The adapter identity grammar: 1 to 128 bytes of `[a-z0-9._-]`, never
/// starting with a separator.
pub open spec fn adapter_id(s: Seq<char>) -> bool {
    &&& 1 <= byte_len(s) <= 128
    &&& all_in(s, 0, CharClass::LowerToken)
    &&& s.len() >= 1 && (is_lower(s[0]) || is_digit(s[0]))
}

/// The adapter identity grammar.
pub fn is_adapter_id(text: &str) -> (r: bool)
    ensures
        r == adapter_id(text@),
{
    let n = text.as_bytes().len();
    if n < 1 || n > 128 {
        return false;
    }
    let s = chars_of(text);
    if !chars_all_in(&s, 0, CharClass::LowerToken) {
        return false;
    }
    s.len() >= 1 && (crate::text::is_lower_char(s[0]) || crate::text::is_digit_char(s[0]))
}

/// The external native-test or gate id grammar: 1 to 128 bytes, no
/// control character, and no leading or trailing space.
pub open spec fn external_id(s: Seq<char>) -> bool {
    &&& 1 <= byte_len(s) <= 128
    &&& forall|i: int| 0 <= i < s.len() ==> !is_control(#[trigger] s[i])
    &&& s.len() >= 1 && s[0] != ' ' && s[s.len() - 1] != ' '
}

fn is_control_char(c: char) -> (r: bool)
    ensures
        r == is_control(c),
{
    (c as u32) <= 0x1f || (0x7f <= (c as u32) && (c as u32) <= 0x9f)
}

/// The external native-test or gate id grammar.
pub fn is_external_id(text: &str) -> (r: bool)
    ensures
        r == external_id(text@),
{
    let n = text.as_bytes().len();
    if n < 1 || n > 128 {
        return false;
    }
    let m = text.unicode_len();
    let mut i: usize = 0;
    while i < m
        invariant
            m == text@.len(),
            i <= m,
            forall|j: int| 0 <= j < i ==> !is_control(#[trigger] text@[j]),
        decreases m - i,
    {
        if is_control_char(text.get_char(i)) {
            return false;
        }
        i = i + 1;
    }
    if m < 1 {
        return false;
    }
    text.get_char(0) != ' ' && text.get_char(m - 1) != ' '
}

/// The generated-artifact home prefix.
pub open spec fn generated_home() -> Seq<char> {
    ".lekalo/generated/"@
}

/// One path segment: non-empty, neither `.` nor `..`, of `[a-z0-9._-]`.
pub open spec fn support_segment(p: Seq<char>) -> bool {
    &&& p.len() >= 1
    &&& p != seq!['.']
    &&& p != seq!['.', '.']
    &&& all_in(p, 0, CharClass::LowerToken)
}

/// A `/`-separated list of valid segments.
pub open spec fn support_segments(p: Seq<char>) -> bool
    decreases p.len(),
{
    let k = first_index(p, '/');
    if k >= p.len() {
        support_segment(p)
    } else {
        proof { lemma_first_index(p, '/'); }
        support_segment(p.subrange(0, k)) && support_segments(p.subrange(k + 1, p.len() as int))
    }
}

/// The support-artifact path grammar: a POSIX logical path confined to
/// `.lekalo/generated/**`, of at most 1024 bytes.
pub open spec fn support_path(s: Seq<char>) -> bool {
    &&& has_prefix(s, generated_home())
    &&& support_segments(s.subrange(18, s.len() as int))
    &&& byte_len(s) <= 1024
}

fn check_segment(p: &Vec<char>) -> (r: bool)
    ensures
        r == support_segment(p@),
{
    if p.len() < 1 {
        return false;
    }
    if p.len() == 1 && p[0] == '.' {
        assert(p@ =~= seq!['.']);
        return false;
    }
    if p.len() == 2 && p[0] == '.' && p[1] == '.' {
        assert(p@ =~= seq!['.', '.']);
        return false;
    }
    assert(p@ != seq!['.'] && p@ != seq!['.', '.']) by {
        if p@ == seq!['.'] { assert(p@[0] == '.'); }
        if p@ == seq!['.', '.'] { assert(p@[0] == '.' && p@[1] == '.'); }
    }
    chars_all_in(p, 0, CharClass::LowerToken)
}

fn check_segments(p: &Vec<char>) -> (r: bool)
    ensures
        r == support_segments(p@),
    decreases p@.len(),
{
    let k = find_char(p, '/');
    proof { lemma_first_index(p@, '/'); }
    if k >= p.len() {
        check_segment(p)
    } else {
        let head = slice_chars(p, 0, k);
        let tail = slice_chars(p, k + 1, p.len());
        check_segment(&head) && check_segments(&tail)
    }
}

/// The support-artifact path grammar.
pub fn is_support_path(text: &str) -> (r: bool)
    ensures
        r == support_path(text@),
{
    proof { reveal_strlit(".lekalo/generated/"); }
    if !crate::text::str_starts_with(text, ".lekalo/generated/") {
        return false;
    }
    let s = chars_of(text);
    assert(s@.len() >= 18);
    let rest = slice_chars(&s, 18, s.len());
    check_segments(&rest) && text.as_bytes().len() <= 1024
}

} // verus!
