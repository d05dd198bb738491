//! Character-class predicates and small verified string helpers shared by
//! every grammar of the crate.

use vstd::prelude::*;
use vstd::string::StringExecFns;

verus! {

/// `a`..=`z`.
pub open spec fn is_lower(c: char) -> bool {
    'a' <= c && c <= 'z'
}

/// `A`..=`Z`.
pub open spec fn is_upper(c: char) -> bool {
    'A' <= c && c <= 'Z'
}

/// `0`..=`9`.
pub open spec fn is_digit(c: char) -> bool {
    '0' <= c && c <= '9'
}

/// ASCII letters and digits.
pub open spec fn is_alnum(c: char) -> bool {
    is_lower(c) || is_upper(c) || is_digit(c)
}

/// The byte length of a text given by its characters (UTF-8).
pub open spec fn byte_len(s: Seq<char>) -> nat {
    vstd::utf8::encode_utf8(s).len()
}

/// Lexicographic strict order of two texts by code point, which is the
/// order of their UTF-8 bytes.
pub open spec fn text_lt(a: Seq<char>, b: Seq<char>) -> bool
    decreases a.len(),
{
    if b.len() == 0 {
        false
    } else if a.len() == 0 {
        true
    } else if a[0] != b[0] {
        a[0] < b[0]
    } else {
        text_lt(a.drop_first(), b.drop_first())
    }
}

/// Whether `prefix` starts `s`.
pub open spec fn has_prefix(s: Seq<char>, prefix: Seq<char>) -> bool {
    prefix.len() <= s.len() && s.subrange(0, prefix.len() as int) == prefix
}


/// Whether the text ends with the given suffix.
pub open spec fn has_suffix(s: Seq<char>, suffix: Seq<char>) -> bool {
    suffix.len() <= s.len() && s.subrange(s.len() - suffix.len(), s.len() as int) == suffix
}

/// Whether the text ends with the given suffix.
pub fn str_ends_with(s: &str, suffix: &str) -> (r: bool)
    ensures
        r == has_suffix(s@, suffix@),
{
    let n = s.unicode_len();
    let m = suffix.unicode_len();
    if m > n {
        return false;
    }
    let mut i: usize = 0;
    while i < m
        invariant
            n == s@.len(),
            m == suffix@.len(),
            m <= n,
            i <= m,
            forall|j: int| 0 <= j < i ==> s@[n - m + j] == suffix@[j],
        decreases m - i,
    {
        if s.get_char(n - m + i) != suffix.get_char(i) {
            assert(s@.subrange(n - m, n as int)[i as int] != suffix@[i as int]);
            return false;
        }
        i = i + 1;
    }
    assert(s@.subrange(n - m, n as int) =~= suffix@);
    true
}

/// Whether `c` occurs in `s`.
pub open spec fn contains_char(s: Seq<char>, c: char) -> bool {
    exists|i: int| 0 <= i < s.len() && s[i] == c
}

pub fn is_lower_char(c: char) -> (r: bool)
    ensures
        r == is_lower(c),
{
    'a' <= c && c <= 'z'
}

pub fn is_upper_char(c: char) -> (r: bool)
    ensures
        r == is_upper(c),
{
    'A' <= c && c <= 'Z'
}

pub fn is_digit_char(c: char) -> (r: bool)
    ensures
        r == is_digit(c),
{
    '0' <= c && c <= '9'
}

pub fn is_alnum_char(c: char) -> (r: bool)
    ensures
        r == is_alnum(c),
{
    is_lower_char(c) || is_upper_char(c) || is_digit_char(c)
}

/// The characters of a text, in order.
pub fn chars_of(s: &str) -> (r: Vec<char>)
    ensures
        r@ == s@,
{
    let n = s.unicode_len();
    let mut out: Vec<char> = Vec::new();
    let mut i: usize = 0;
    while i < n
        invariant
            n == s@.len(),
            i <= n,
            out@ == s@.subrange(0, i as int),
        decreases n - i,
    {
        out.push(s.get_char(i));
        i = i + 1;
    }
    out
}

/// Exact text equality.
pub fn str_eq(a: &str, b: &str) -> (r: bool)
    ensures
        r == (a@ == b@),
{
    let n = a.unicode_len();
    let m = b.unicode_len();
    if n != m {
        return false;
    }
    let mut i: usize = 0;
    while i < n
        invariant
            n == a@.len(),
            n == b@.len(),
            i <= n,
            a@.subrange(0, i as int) == b@.subrange(0, i as int),
        decreases n - i,
    {
        if a.get_char(i) != b.get_char(i) {
            assert(a@[i as int] != b@[i as int]);
            return false;
        }
        assert(a@.subrange(0, i + 1) =~= a@.subrange(0, i as int).push(a@[i as int]));
        assert(b@.subrange(0, i + 1) =~= b@.subrange(0, i as int).push(b@[i as int]));
        i = i + 1;
    }
    assert(a@ =~= a@.subrange(0, n as int));
    assert(b@ =~= b@.subrange(0, n as int));
    true
}

/// Strict lexicographic comparison by code point.
pub fn str_lt(a: &str, b: &str) -> (r: bool)
    ensures
        r == text_lt(a@, b@),
{
    let ca = chars_of(a);
    let cb = chars_of(b);
    assert(ca@.subrange(0, 0) =~= cb@.subrange(0, 0));
    chars_lt(&ca, &cb, 0)
}

fn chars_lt(a: &Vec<char>, b: &Vec<char>, i: usize) -> (r: bool)
    requires
        i <= a@.len(),
        i <= b@.len(),
        a@.subrange(0, i as int) == b@.subrange(0, i as int),
    ensures
        r == text_lt(a@, b@),
    decreases a@.len() - i,
{
    proof {
        lemma_text_lt_common_prefix(a@, b@, i as int);
    }
    if i == b.len() {
        false
    } else if i == a.len() {
        true
    } else if a[i] != b[i] {
        a[i] < b[i]
    } else {
        assert(a@.subrange(0, i + 1) =~= a@.subrange(0, i as int).push(a@[i as int]));
        assert(b@.subrange(0, i + 1) =~= b@.subrange(0, i as int).push(b@[i as int]));
        chars_lt(a, b, i + 1)
    }
}

/// Comparing two texts with a common prefix is comparing what follows it.
proof fn lemma_text_lt_common_prefix(a: Seq<char>, b: Seq<char>, i: int)
    requires
        0 <= i <= a.len(),
        i <= b.len(),
        a.subrange(0, i) == b.subrange(0, i),
    ensures
        text_lt(a, b) == text_lt(a.subrange(i, a.len() as int), b.subrange(i, b.len() as int)),
    decreases i,
{
    if i > 0 {
        assert(a[0] == a.subrange(0, i)[0]);
        assert(b[0] == b.subrange(0, i)[0]);
        assert(a.drop_first().subrange(0, i - 1) =~= a.subrange(0, i).drop_first());
        assert(b.drop_first().subrange(0, i - 1) =~= b.subrange(0, i).drop_first());
        lemma_text_lt_common_prefix(a.drop_first(), b.drop_first(), i - 1);
        assert(a.drop_first().subrange(i - 1, a.len() - 1) =~= a.subrange(i, a.len() as int));
        assert(b.drop_first().subrange(i - 1, b.len() - 1) =~= b.subrange(i, b.len() as int));
    } else {
        assert(a.subrange(0, a.len() as int) =~= a);
        assert(b.subrange(0, b.len() as int) =~= b);
    }
}

/// `text_lt` is irreflexive.
pub proof fn lemma_text_lt_irreflexive(a: Seq<char>)
    ensures
        !text_lt(a, a),
    decreases a.len(),
{
    if a.len() > 0 {
        lemma_text_lt_irreflexive(a.drop_first());
    }
}

/// `text_lt` is transitive.
pub proof fn lemma_text_lt_transitive(a: Seq<char>, b: Seq<char>, c: Seq<char>)
    requires
        text_lt(a, b),
        text_lt(b, c),
    ensures
        text_lt(a, c),
    decreases a.len(),
{
    if a.len() > 0 && b.len() > 0 && c.len() > 0 && a[0] == b[0] && b[0] == c[0] {
        lemma_text_lt_transitive(a.drop_first(), b.drop_first(), c.drop_first());
    }
}

/// `text_lt` is total on distinct texts.
pub proof fn lemma_text_lt_total(a: Seq<char>, b: Seq<char>)
    ensures
        a == b || text_lt(a, b) || text_lt(b, a),
    decreases a.len(),
{
    if a.len() > 0 && b.len() > 0 {
        if a[0] == b[0] {
            lemma_text_lt_total(a.drop_first(), b.drop_first());
            if a.drop_first() == b.drop_first() {
                assert(a =~= seq![a[0]] + a.drop_first());
                assert(b =~= seq![b[0]] + b.drop_first());
            }
        }
    } else if a.len() == 0 && b.len() == 0 {
        assert(a =~= b);
    }
}

/// Whether the text starts with the given prefix.
pub fn str_starts_with(s: &str, prefix: &str) -> (r: bool)
    ensures
        r == has_prefix(s@, prefix@),
{
    let n = s.unicode_len();
    let m = prefix.unicode_len();
    if m > n {
        return false;
    }
    let mut i: usize = 0;
    while i < m
        invariant
            n == s@.len(),
            m == prefix@.len(),
            m <= n,
            i <= m,
            s@.subrange(0, i as int) == prefix@.subrange(0, i as int),
        decreases m - i,
    {
        if s.get_char(i) != prefix.get_char(i) {
            assert(s@.subrange(0, m as int)[i as int] != prefix@[i as int]);
            return false;
        }
        assert(s@.subrange(0, i + 1) =~= s@.subrange(0, i as int).push(s@[i as int]));
        assert(prefix@.subrange(0, i + 1) =~= prefix@.subrange(0, i as int).push(prefix@[i as int]));
        i = i + 1;
    }
    assert(prefix@ =~= prefix@.subrange(0, m as int));
    true
}

/// Whether the character occurs in the text.
pub fn str_contains_char(s: &str, c: char) -> (r: bool)
    ensures
        r == contains_char(s@, c),
{
    let n = s.unicode_len();
    let mut i: usize = 0;
    while i < n
        invariant
            n == s@.len(),
            i <= n,
            forall|j: int| 0 <= j < i ==> s@[j] != c,
        decreases n - i,
    {
        if s.get_char(i) == c {
            return true;
        }
        i = i + 1;
    }
    false
}


/// The closed character classes that the token grammars are built from.
#[derive(Clone, Copy, Debug, PartialEq, Eq)]
pub enum CharClass {
    /// `[a-z0-9_]`
    LowerDigitUnderscore,
    /// `[a-z0-9-]`
    LowerDigitHyphen,
    /// `[a-z0-9_-]`
    LowerDigitUnderscoreHyphen,
    /// `[a-z0-9_.]`
    DottedSnake,
    /// `[a-z0-9.-]`
    DottedKebab,
    /// `[A-Za-z0-9._:/-]`
    Token,
    /// `[A-Za-z0-9._:/#-]`
    PolicyToken,
    /// `[A-Za-z0-9 .,:;()/_-]`
    Prose,
    /// `[0-9]`
    Digit,
    /// `[0-9A-Za-z-]`
    AlnumHyphen,
    /// `[A-Z0-9]`
    UpperDigit,
    /// ASCII graphic characters, `!` to `~`.
    Graphic,
    /// `[a-z0-9._-]`
    LowerToken,
}

/// Membership of a character in a class.
pub open spec fn in_class(cls: CharClass, c: char) -> bool {
    match cls {
        CharClass::LowerDigitUnderscore => is_lower(c) || is_digit(c) || c == '_',
        CharClass::LowerDigitHyphen => is_lower(c) || is_digit(c) || c == '-',
        CharClass::LowerDigitUnderscoreHyphen => is_lower(c) || is_digit(c) || c == '_' || c == '-',
        CharClass::DottedSnake => is_lower(c) || is_digit(c) || c == '_' || c == '.',
        CharClass::DottedKebab => is_lower(c) || is_digit(c) || c == '-' || c == '.',
        CharClass::Token => is_alnum(c) || c == '.' || c == '_' || c == ':' || c == '/' || c == '-',
        CharClass::PolicyToken => is_alnum(c) || c == '.' || c == '_' || c == ':' || c == '/' || c == '-'
            || c == '#',
        CharClass::Prose => is_alnum(c) || c == ' ' || c == '.' || c == ',' || c == ':' || c == ';'
            || c == '(' || c == ')' || c == '/' || c == '_' || c == '-',
        CharClass::Digit => is_digit(c),
        CharClass::AlnumHyphen => is_alnum(c) || c == '-',
        CharClass::UpperDigit => is_upper(c) || is_digit(c),
        CharClass::Graphic => '!' <= c && c <= '~',
        CharClass::LowerToken => is_lower(c) || is_digit(c) || c == '.' || c == '_' || c == '-',
    }
}

/// Membership of a character in a class.
pub fn class_has(cls: CharClass, c: char) -> (r: bool)
    ensures
        r == in_class(cls, c),
{
    match cls {
        CharClass::LowerDigitUnderscore => is_lower_char(c) || is_digit_char(c) || c == '_',
        CharClass::LowerDigitHyphen => is_lower_char(c) || is_digit_char(c) || c == '-',
        CharClass::LowerDigitUnderscoreHyphen => is_lower_char(c) || is_digit_char(c) || c == '_'
            || c == '-',
        CharClass::DottedSnake => is_lower_char(c) || is_digit_char(c) || c == '_' || c == '.',
        CharClass::DottedKebab => is_lower_char(c) || is_digit_char(c) || c == '-' || c == '.',
        CharClass::Token => is_alnum_char(c) || c == '.' || c == '_' || c == ':' || c == '/' || c
            == '-',
        CharClass::PolicyToken => is_alnum_char(c) || c == '.' || c == '_' || c == ':' || c == '/'
            || c == '-' || c == '#',
        CharClass::Prose => is_alnum_char(c) || c == ' ' || c == '.' || c == ',' || c == ':' || c
            == ';' || c == '(' || c == ')' || c == '/' || c == '_' || c == '-',
        CharClass::Digit => is_digit_char(c),
        CharClass::AlnumHyphen => is_alnum_char(c) || c == '-',
        CharClass::UpperDigit => is_upper_char(c) || is_digit_char(c),
        CharClass::Graphic => '!' <= c && c <= '~',
        CharClass::LowerToken => is_lower_char(c) || is_digit_char(c) || c == '.' || c == '_' || c == '-',
    }
}

/// Every character of `s` from index `from` on lies in the class.
pub open spec fn all_in(s: Seq<char>, from: int, cls: CharClass) -> bool {
    forall|i: int| from <= i < s.len() ==> in_class(cls, #[trigger] s[i])
}

/// Every character of `s` from index `from` on lies in the class.
pub fn chars_all_in(s: &Vec<char>, from: usize, cls: CharClass) -> (r: bool)
    ensures
        r == all_in(s@, from as int, cls),
{
    let mut i: usize = from;
    while i < s.len()
        invariant
            from <= i,
            forall|j: int| from <= j < i && j < s@.len() ==> in_class(cls, #[trigger] s@[j]),
        decreases s@.len() - i,
    {
        if !class_has(cls, s[i]) {
            assert(!in_class(cls, s@[i as int]));
            return false;
        }
        i = i + 1;
    }
    true
}

/// The number of occurrences of `c` in `s`.
pub open spec fn count_char(s: Seq<char>, c: char) -> nat
    decreases s.len(),
{
    if s.len() == 0 {
        0
    } else {
        count_char(s.drop_last(), c) + if s.last() == c { 1nat } else { 0nat }
    }
}

/// The index of the first `c` in `s`, or `s.len()` when there is none.
pub open spec fn first_index(s: Seq<char>, c: char) -> int
    decreases s.len(),
{
    if s.len() == 0 {
        0
    } else if s[0] == c {
        0
    } else {
        1 + first_index(s.drop_first(), c)
    }
}

/// `first_index` finds the first occurrence.
pub proof fn lemma_first_index(s: Seq<char>, c: char)
    ensures
        0 <= first_index(s, c) <= s.len(),
        forall|i: int| 0 <= i < first_index(s, c) ==> s[i] != c,
        first_index(s, c) < s.len() ==> s[first_index(s, c)] == c,
        first_index(s, c) == s.len() <==> !contains_char(s, c),
    decreases s.len(),
{
    if s.len() > 0 && s[0] != c {
        lemma_first_index(s.drop_first(), c);
        assert forall|i: int| 0 <= i < first_index(s, c) implies s[i] != c by {
            if i > 0 {
                assert(s[i] == s.drop_first()[i - 1]);
            }
        }
        if contains_char(s, c) {
            let k = choose|k: int| 0 <= k < s.len() && s[k] == c;
            assert(s.drop_first()[k - 1] == c);
        }
        if contains_char(s.drop_first(), c) {
            let k = choose|k: int| 0 <= k < s.drop_first().len() && s.drop_first()[k] == c;
            assert(s[k + 1] == c);
        }
    }
}

/// The index of the first `c` in `s`, or `s.len()` when there is none.
pub fn find_char(s: &Vec<char>, c: char) -> (r: usize)
    ensures
        r == first_index(s@, c),
{
    proof { lemma_first_index(s@, c); }
    let mut i: usize = 0;
    while i < s.len()
        invariant
            i <= s@.len(),
            forall|j: int| 0 <= j < i ==> s@[j] != c,
            0 <= first_index(s@, c) <= s@.len(),
            forall|j: int| 0 <= j < first_index(s@, c) ==> s@[j] != c,
            first_index(s@, c) < s@.len() ==> s@[first_index(s@, c)] == c,
        decreases s@.len() - i,
    {
        if s[i] == c {
            return i;
        }
        i = i + 1;
    }
    i
}

/// The number of occurrences of `c`.
pub fn count_chars(s: &Vec<char>, c: char) -> (r: usize)
    ensures
        r == count_char(s@, c),
{
    let mut i: usize = 0;
    let mut n: usize = 0;
    while i < s.len()
        invariant
            i <= s@.len(),
            n == count_char(s@.subrange(0, i as int), c),
            n <= i,
        decreases s@.len() - i,
    {
        assert(s@.subrange(0, i + 1).drop_last() =~= s@.subrange(0, i as int));
        if s[i] == c {
            n = n + 1;
        }
        i = i + 1;
    }
    assert(s@.subrange(0, s@.len() as int) =~= s@);
    n
}


/// The decimal digit character of `d < 10`.
pub open spec fn digit_char(d: nat) -> char {
    ((d as u32) + ('0' as u32)) as char
}

/// The decimal spelling of a natural number, without leading zeros.
pub open spec fn decimal(n: nat) -> Seq<char>
    decreases n,
{
    if n < 10 {
        seq![digit_char(n)]
    } else {
        decimal(n / 10) + seq![digit_char(n % 10)]
    }
}

/// The one-character text of a decimal digit.
pub fn digit_text(d: u64) -> (r: &'static str)
    requires
        d < 10,
    ensures
        r@ == seq![digit_char(d as nat)],
{
    proof {
        reveal_strlit("0"); reveal_strlit("1"); reveal_strlit("2"); reveal_strlit("3");
        reveal_strlit("4"); reveal_strlit("5"); reveal_strlit("6"); reveal_strlit("7");
        reveal_strlit("8"); reveal_strlit("9");
    }
    match d {
        0 => "0",
        1 => "1",
        2 => "2",
        3 => "3",
        4 => "4",
        5 => "5",
        6 => "6",
        7 => "7",
        8 => "8",
        _ => "9",
    }
}

/// Appends the decimal spelling of `n`.
pub fn push_decimal(out: &mut String, n: u64)
    ensures
        final(out)@ == old(out)@ + decimal(n as nat),
    decreases n,
{
    if n >= 10 {
        push_decimal(out, n / 10);
    }
    out.append(digit_text(n % 10));
    assert(final(out)@ =~= old(out)@ + decimal(n as nat)) by {
        if n >= 10 {
            assert(decimal(n as nat) == decimal((n / 10) as nat) + seq![digit_char((n % 10) as nat)]);
        }
    }
}


/// Appends one character with `String::push`; the text grows by exactly
/// that character.
#[verifier::external_body]
pub fn push_char(out: &mut String, c: char)
    ensures
        final(out)@ == old(out)@.push(c),
{
    out.push(c);
}

/// The general-category Cc control characters.
pub open spec fn is_control(c: char) -> bool {
    (c as u32) <= 0x1f || (0x7f <= (c as u32) && (c as u32) <= 0x9f)
}

/// A control character replaced by a space.
pub open spec fn clean_char(c: char) -> char {
    if is_control(c) {
        ' '
    } else {
        c
    }
}

/// The UTF-8 width of a character.
pub open spec fn utf8_width(c: char) -> nat {
    if (c as u32) < 0x80 {
        1
    } else if (c as u32) < 0x800 {
        2
    } else if (c as u32) < 0x10000 {
        3
    } else {
        4
    }
}

/// The longest prefix of the cleaned text whose UTF-8 size fits `budget`.
pub open spec fn bounded_prefix(s: Seq<char>, budget: nat) -> Seq<char>
    decreases s.len(),
{
    if s.len() == 0 {
        Seq::empty()
    } else {
        let c = clean_char(s[0]);
        if utf8_width(c) <= budget {
            seq![c] + bounded_prefix(s.drop_first(), (budget - utf8_width(c)) as nat)
        } else {
            Seq::empty()
        }
    }
}

proof fn lemma_bounded_prefix_step(s: Seq<char>, i: int, budget: nat)
    requires
        0 <= i < s.len(),
    ensures
        bounded_prefix(s.subrange(i, s.len() as int), budget) == (if utf8_width(clean_char(s[i])) <= budget {
            seq![clean_char(s[i])] + bounded_prefix(s.subrange(i + 1, s.len() as int), (budget - utf8_width(clean_char(s[i]))) as nat)
        } else {
            Seq::empty()
        }),
{
    assert(s.subrange(i, s.len() as int).drop_first() =~= s.subrange(i + 1, s.len() as int));
}

/// The text with control characters replaced by spaces and cut, at a
/// character boundary, to at most `budget` UTF-8 bytes.
pub fn bound_text(text: &str, budget: usize) -> (r: String)
    ensures
        r@ == bounded_prefix(text@, budget as nat),
{
    let n = text.unicode_len();
    let mut out = String::new();
    let mut left: usize = budget;
    let mut i: usize = 0;
    assert(text@.subrange(0, n as int) =~= text@);
    while i < n
        invariant
            n == text@.len(),
            i <= n,
            left <= budget,
            out@ + bounded_prefix(text@.subrange(i as int, n as int), left as nat) == bounded_prefix(text@, budget as nat),
        decreases n - i,
    {
        let c = text.get_char(i);
        let cleaned = if (c as u32) <= 0x1f || (0x7f <= (c as u32) && (c as u32) <= 0x9f) { ' ' } else { c };
        let width: usize = if (cleaned as u32) < 0x80 { 1 } else if (cleaned as u32) < 0x800 { 2 } else if (cleaned as u32) < 0x10000 { 3 } else { 4 };
        proof { lemma_bounded_prefix_step(text@, i as int, left as nat); }
        if width > left {
            assert(out@ =~= bounded_prefix(text@, budget as nat));
            return out;
        }
        let ghost before = out@;
        push_char(&mut out, cleaned);
        assert(out@ + bounded_prefix(text@.subrange(i + 1, n as int), (left - width) as nat) =~= before
            + bounded_prefix(text@.subrange(i as int, n as int), left as nat));
        left = left - width;
        i = i + 1;
    }
    assert(text@.subrange(n as int, n as int) =~= Seq::<char>::empty());
    assert(out@ =~= bounded_prefix(text@, budget as nat));
    out
}


/// `a` sorts no later than `b` in byte order.
pub open spec fn text_le(a: Seq<char>, b: Seq<char>) -> bool {
    !text_lt(b, a)
}

/// Byte order is a total preorder (indeed a total order).
pub proof fn lemma_text_le_order(a: Seq<char>, b: Seq<char>, c: Seq<char>)
    ensures
        text_le(a, b) || text_le(b, a),
        text_le(a, b) && text_le(b, c) ==> text_le(a, c),
        text_le(a, b) && text_le(b, a) ==> a == b,
        text_le(a, a),
{
    lemma_text_lt_total(a, b);
    lemma_text_lt_total(a, c);
    lemma_text_lt_total(b, c);
    lemma_text_lt_irreflexive(a);
    lemma_text_lt_irreflexive(b);
    if text_lt(a, b) && text_lt(b, a) {
        lemma_text_lt_transitive(a, b, a);
    }
    if text_le(a, b) && text_le(b, c) && text_lt(c, a) {
        if a == b {
        } else if text_lt(a, b) {
            lemma_text_lt_transitive(c, a, b);
        }
    }
}



/// Lexicographic order over three texts, each compared in byte order.
pub open spec fn text3_le(a: (Seq<char>, Seq<char>, Seq<char>), b: (Seq<char>, Seq<char>, Seq<char>)) -> bool {
    text_lt(a.0, b.0) || (a.0 == b.0 && (text_lt(a.1, b.1) || (a.1 == b.1 && text_le(a.2, b.2))))
}

/// The three-key order is total, transitive, and antisymmetric.
pub proof fn lemma_text3_le_order(
    a: (Seq<char>, Seq<char>, Seq<char>),
    b: (Seq<char>, Seq<char>, Seq<char>),
    c: (Seq<char>, Seq<char>, Seq<char>),
)
    ensures
        text3_le(a, b) || text3_le(b, a),
        text3_le(a, b) && text3_le(b, c) ==> text3_le(a, c),
        text3_le(a, b) && text3_le(b, a) ==> a == b,
{
    lemma_text_lt_total(a.0, b.0);
    lemma_text_lt_total(a.1, b.1);
    lemma_text_le_order(a.2, b.2, c.2);
    lemma_text_lt_irreflexive(a.0);
    lemma_text_lt_irreflexive(a.1);
    if text_lt(a.0, b.0) && text_lt(b.0, a.0) {
        lemma_text_lt_transitive(a.0, b.0, a.0);
    }
    if text_lt(a.1, b.1) && text_lt(b.1, a.1) {
        lemma_text_lt_transitive(a.1, b.1, a.1);
    }
    if text_lt(a.0, b.0) && text_lt(b.0, c.0) {
        lemma_text_lt_transitive(a.0, b.0, c.0);
    }
    if text_lt(a.1, b.1) && text_lt(b.1, c.1) {
        lemma_text_lt_transitive(a.1, b.1, c.1);
    }
}

/// Three-key lexicographic comparison in byte order.
pub fn text3_le_exec(a0: &str, a1: &str, a2: &str, b0: &str, b1: &str, b2: &str) -> (r: bool)
    ensures
        r == text3_le((a0@, a1@, a2@), (b0@, b1@, b2@)),
{
    str_lt(a0, b0) || (str_eq(a0, b0) && (str_lt(a1, b1) || (str_eq(a1, b1) && !str_lt(b2, a2))))
}

/// Whether a continuation byte, `10xxxxxx`, stands at `i`.
fn continues(bytes: &[u8], i: usize) -> (r: bool)
    ensures
        r == (i < bytes@.len() && vstd::utf8::is_continuation_byte(bytes@[i as int])),
{
    i < bytes.len() && 0x80 <= bytes[i] && bytes[i] <= 0xbf
}

/// Whether the bytes are well-formed UTF-8: each scalar in its shortest
/// encoding, none in the surrogate range.
pub fn is_utf8(bytes: &[u8]) -> (r: bool)
    ensures
        r == vstd::utf8::valid_utf8(bytes@),
{
    let n = bytes.len();
    let mut i: usize = 0;
    assert(bytes@.skip(0) =~= bytes@);
    while i < n
        invariant
            i <= n,
            n == bytes@.len(),
            vstd::utf8::valid_utf8(bytes@) == vstd::utf8::valid_utf8(bytes@.skip(i as int)),
        decreases n - i,
    {
        let ghost rest = bytes@.skip(i as int);
        let b0 = bytes[i];
        assert(rest[0] == b0);
        let width: usize;
        let cp: u32;
        if b0 <= 0x7f {
            width = 1;
            cp = (b0 & 0x7f) as u32;
        } else if 0xc0 <= b0 && b0 <= 0xdf {
            if !continues(bytes, i + 1) {
                return false;
            }
            assert(rest[1] == bytes@[i + 1]);
            width = 2;
            cp = (((b0 & 0x1f) as u32) << 6) | ((bytes[i + 1] & 0x3f) as u32);
        } else if 0xe0 <= b0 && b0 <= 0xef {
            if !continues(bytes, i + 1) || !continues(bytes, i + 2) {
                return false;
            }
            assert(rest[1] == bytes@[i + 1] && rest[2] == bytes@[i + 2]);
            width = 3;
            cp = (((b0 & 0x0f) as u32) << 12) | (((bytes[i + 1] & 0x3f) as u32) << 6) | ((bytes[i + 2] & 0x3f) as u32);
        } else if 0xf0 <= b0 && b0 <= 0xf7 {
            if !continues(bytes, i + 1) || !continues(bytes, i + 2) || !continues(bytes, i + 3) {
                return false;
            }
            assert(rest[1] == bytes@[i + 1] && rest[2] == bytes@[i + 2] && rest[3] == bytes@[i + 3]);
            width = 4;
            cp = (((b0 & 0x07) as u32) << 18) | (((bytes[i + 1] & 0x3f) as u32) << 12)
                | (((bytes[i + 2] & 0x3f) as u32) << 6) | ((bytes[i + 3] & 0x3f) as u32);
        } else {
            return false;
        }
        assert(cp == vstd::utf8::decode_first_codepoint(rest));
        assert(width == vstd::utf8::length_of_first_codepoint(rest));
        if (width == 2 && cp < 0x80) || (width == 3 && cp < 0x800) || (width == 4 && (cp < 0x10000 || cp > 0x10ffff)) {
            return false;
        }
        if 0xd800 <= cp && cp <= 0xdfff {
            return false;
        }
        assert(vstd::utf8::valid_first_scalar(rest));
        assert(vstd::utf8::pop_first_scalar(rest) =~= bytes@.skip(i + width));
        i = i + width;
    }
    assert(bytes@.skip(n as int).len() == 0);
    true
}

} // verus!
