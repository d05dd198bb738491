//! Project identities shared by every attachment: semantic ids, pinned
//! digests, and canonical SemVer revisions.

use vstd::prelude::*;
use crate::text::{CharClass, all_in, chars_all_in, chars_of, count_char, count_chars, find_char, first_index, is_lower, is_lower_char, lemma_first_index};
use crate::digest::{is_digest_text, is_digest};

verus! {

/// One run of `[a-z][a-z0-9_]*` segments joined by `.`: the first
/// character is a lowercase letter, every `.` is followed by one, and
/// no other character than `[a-z0-9_.]` occurs.
pub open spec fn dotted_snake(s: Seq<char>) -> bool {
    &&& s.len() >= 1
    &&& is_lower(s[0])
    &&& all_in(s, 0, CharClass::DottedSnake)
    &&& forall|i: int| 0 <= i < s.len() && #[trigger] s[i] == '.' ==> i + 1 < s.len() && is_lower(s[i + 1])
}

/// The semantic-id grammar: one to three dotted snake segments, at most
/// 192 bytes.
pub open spec fn is_semantic_id(s: Seq<char>) -> bool {
    &&& dotted_snake(s)
    &&& count_char(s, '.') <= 2
    &&& s.len() <= 192
}

/// A project root id: one snake segment.
pub open spec fn is_root_id(s: Seq<char>) -> bool {
    is_semantic_id(s) && count_char(s, '.') == 0
}

/// Checks the dotted-snake shape of a character sequence.
pub fn check_dotted_snake(s: &Vec<char>) -> (r: bool)
    ensures
        r == dotted_snake(s@),
{
    if s.len() == 0 || !is_lower_char(s[0]) {
        return false;
    }
    if !chars_all_in(s, 0, CharClass::DottedSnake) {
        return false;
    }
    let mut i: usize = 0;
    while i < s.len()
        invariant
            i <= s@.len(),
            forall|j: int| 0 <= j < i && #[trigger] s@[j] == '.' ==> j + 1 < s@.len() && is_lower(s@[j + 1]),
        decreases s@.len() - i,
    {
        if s[i] == '.' {
            if i + 1 >= s.len() || !is_lower_char(s[i + 1]) {
                return false;
            }
        }
        i = i + 1;
    }
    true
}

/// One validated semantic id of a Model definition or project.
#[derive(Debug, PartialEq, Eq)]
pub struct SemanticId {
    text: String,
}

impl Clone for SemanticId {
    fn clone(&self) -> (r: SemanticId)
        ensures
            r@ == self@,
    {
        SemanticId { text: self.text.clone() }
    }
}

impl View for SemanticId {
    type V = Seq<char>;

    closed spec fn view(&self) -> Seq<char> {
        self.text@
    }
}

/// Why an identity text was refused.
#[derive(Clone, Copy, Debug, PartialEq, Eq)]
pub enum IdError {
    Shape,
}

impl SemanticId {
    /// Validate one semantic id (`module`, `module.name` or
    /// `module.kind.name`).
    pub fn parse(text: &str) -> (r: Result<SemanticId, IdError>)
        ensures
            r is Ok <==> is_semantic_id(text@),
            r matches Ok(id) ==> id@ == text@,
    {
        let chars = chars_of(text);
        if chars.len() > 192 || !check_dotted_snake(&chars) || count_chars(&chars, '.') > 2 {
            return Err(IdError::Shape);
        }
        Ok(SemanticId { text: text.to_owned() })
    }

    /// Validate one project root id (a single snake segment).
    pub fn parse_root(text: &str) -> (r: Result<SemanticId, IdError>)
        ensures
            r is Ok <==> is_root_id(text@),
            r matches Ok(id) ==> id@ == text@,
    {
        let chars = chars_of(text);
        if chars.len() > 192 || !check_dotted_snake(&chars) || count_chars(&chars, '.') != 0 {
            return Err(IdError::Shape);
        }
        Ok(SemanticId { text: text.to_owned() })
    }

    /// The exact validated text.
    pub fn as_str(&self) -> (r: &str)
        ensures
            r@ == self@,
    {
        self.text.as_str()
    }
}

/// One pinned `sha256:<64 lowercase hex>` digest.
#[derive(Debug, PartialEq, Eq)]
pub struct Sha256Digest {
    text: String,
}

impl Clone for Sha256Digest {
    fn clone(&self) -> (r: Sha256Digest)
        ensures
            r@ == self@,
    {
        Sha256Digest { text: self.text.clone() }
    }
}

impl View for Sha256Digest {
    type V = Seq<char>;

    closed spec fn view(&self) -> Seq<char> {
        self.text@
    }
}

impl Sha256Digest {
    /// Validate one prefixed digest.
    pub fn parse(text: &str) -> (r: Result<Sha256Digest, IdError>)
        ensures
            r is Ok <==> is_digest_text(text@),
            r matches Ok(d) ==> d@ == text@,
    {
        if !is_digest(text) {
            return Err(IdError::Shape);
        }
        Ok(Sha256Digest { text: text.to_owned() })
    }

    /// The exact digest text.
    pub fn as_str(&self) -> (r: &str)
        ensures
            r@ == self@,
    {
        self.text.as_str()
    }
}

/// One numeric SemVer part: 1 to 19 digits, no leading zero.
pub open spec fn is_numeric_part(p: Seq<char>) -> bool {
    &&& 1 <= p.len() <= 19
    &&& all_in(p, 0, CharClass::Digit)
    &&& (p.len() == 1 || p[0] != '0')
}

/// The index of the first `c` at or after `from`.
pub open spec fn index_from(s: Seq<char>, c: char, from: int) -> int {
    from + first_index(s.subrange(from, s.len() as int), c)
}

/// `major.minor.patch` with numeric parts and nothing else.
pub open spec fn is_semver_core(s: Seq<char>) -> bool {
    let d1 = first_index(s, '.');
    let d2 = index_from(s, '.', d1 + 1);
    &&& d1 < s.len()
    &&& d2 < s.len()
    &&& is_numeric_part(s.subrange(0, d1))
    &&& is_numeric_part(s.subrange(d1 + 1, d2))
    &&& is_numeric_part(s.subrange(d2 + 1, s.len() as int))
}

/// One pre-release identifier: alphanumerics and hyphens; a purely
/// numeric one has no leading zero.
pub open spec fn is_prerelease_ident(p: Seq<char>) -> bool {
    &&& p.len() >= 1
    &&& all_in(p, 0, CharClass::AlnumHyphen)
    &&& (all_in(p, 0, CharClass::Digit) ==> p.len() == 1 || p[0] != '0')
}

/// Dot-separated pre-release identifiers.
pub open spec fn is_prerelease(p: Seq<char>) -> bool
    decreases p.len(),
{
    let k = first_index(p, '.');
    if k >= p.len() {
        is_prerelease_ident(p)
    } else {
        proof {
            lemma_first_index(p, '.');
        }
        is_prerelease_ident(p.subrange(0, k)) && is_prerelease(p.subrange(k + 1, p.len() as int))
    }
}

/// A canonical SemVer spelling without build metadata:
/// `major.minor.patch` optionally followed by `-` and a pre-release.
pub open spec fn is_revision(s: Seq<char>) -> bool {
    let h = first_index(s, '-');
    &&& is_semver_core(s.subrange(0, h))
    &&& (h < s.len() ==> is_prerelease(s.subrange(h + 1, s.len() as int)))
}

/// The characters of `s` in `[from, to)`.
pub fn slice_chars(s: &Vec<char>, from: usize, to: usize) -> (r: Vec<char>)
    requires
        from <= to <= s@.len(),
    ensures
        r@ == s@.subrange(from as int, to as int),
{
    let mut out: Vec<char> = Vec::new();
    let mut i: usize = from;
    while i < to
        invariant
            from <= i <= to,
            to <= s@.len(),
            out@ == s@.subrange(from as int, i as int),
        decreases to - i,
    {
        out.push(s[i]);
        assert(out@ =~= s@.subrange(from as int, i + 1));
        i = i + 1;
    }
    out
}

fn check_numeric_part(p: &Vec<char>) -> (r: bool)
    ensures
        r == is_numeric_part(p@),
{
    p.len() >= 1 && p.len() <= 19 && chars_all_in(p, 0, CharClass::Digit) && (p.len() == 1 || p[0]
        != '0')
}

/// Checks `major.minor.patch`.
pub fn check_semver_core(s: &Vec<char>) -> (r: bool)
    ensures
        r == is_semver_core(s@),
{
    let d1 = find_char(s, '.');
    if d1 >= s.len() {
        return false;
    }
    let rest = slice_chars(s, d1 + 1, s.len());
    let k = find_char(&rest, '.');
    proof { lemma_first_index(rest@, '.'); }
    let d2 = d1 + 1 + k;
    if d2 >= s.len() {
        return false;
    }
    let a = slice_chars(s, 0, d1);
    let b = slice_chars(s, d1 + 1, d2);
    let c = slice_chars(s, d2 + 1, s.len());
    check_numeric_part(&a) && check_numeric_part(&b) && check_numeric_part(&c)
}

fn check_prerelease_ident(p: &Vec<char>) -> (r: bool)
    ensures
        r == is_prerelease_ident(p@),
{
    p.len() >= 1 && chars_all_in(p, 0, CharClass::AlnumHyphen) && (!chars_all_in(
        p,
        0,
        CharClass::Digit,
    ) || p.len() == 1 || p[0] != '0')
}

pub fn check_prerelease(p: &Vec<char>) -> (r: bool)
    ensures
        r == is_prerelease(p@),
    decreases p@.len(),
{
    let k = find_char(p, '.');
    proof { lemma_first_index(p@, '.'); }
    if k >= p.len() {
        check_prerelease_ident(p)
    } else {
        let head = slice_chars(p, 0, k);
        let tail = slice_chars(p, k + 1, p.len());
        check_prerelease_ident(&head) && check_prerelease(&tail)
    }
}

/// Checks a canonical SemVer revision without build metadata.
pub fn check_revision(text: &str) -> (r: bool)
    ensures
        r == is_revision(text@),
{
    let s = chars_of(text);
    let h = find_char(&s, '-');
    proof { lemma_first_index(s@, '-'); }
    let core = slice_chars(&s, 0, h);
    if !check_semver_core(&core) {
        return false;
    }
    if h < s.len() {
        let pre = slice_chars(&s, h + 1, s.len());
        check_prerelease(&pre)
    } else {
        true
    }
}

} // verus!
