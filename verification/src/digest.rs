//! SHA-256 digests in the crate's `sha256:<64 lowercase hex>` spelling.

use vstd::prelude::*;
use vstd::string::StringExecFns;

verus! {

/// What SHA-256 yields for the given bytes.
pub uninterp spec fn sha256_of(data: Seq<u8>) -> Seq<u8>;

/// Hashes bytes with `sha2::Sha256::digest`; the result is the 32-byte
/// digest of exactly these bytes.
#[verifier::external_body]
fn sha256_bytes(data: &[u8]) -> (r: Vec<u8>)
    ensures
        r@ == sha256_of(data@),
        r@.len() == 32,
{
    <sha2::Sha256 as sha2::Digest>::digest(data).to_vec()
}

/// The lowercase hex digit of a nibble.
pub open spec fn hex_digit(n: u8) -> char {
    if n < 10 {
        ((n as u32) + ('0' as u32)) as char
    } else {
        ((n as u32) - 10 + ('a' as u32)) as char
    }
}

/// The lowercase hex spelling of a byte sequence, two digits per byte.
pub open spec fn hex_of(bytes: Seq<u8>) -> Seq<char>
    decreases bytes.len(),
{
    if bytes.len() == 0 {
        Seq::empty()
    } else {
        seq![hex_digit(bytes[0] / 16), hex_digit(bytes[0] % 16)] + hex_of(bytes.drop_first())
    }
}

/// The `sha256:` prefix.
pub open spec fn digest_prefix() -> Seq<char> {
    seq!['s', 'h', 'a', '2', '5', '6', ':']
}

/// The prefixed digest spelling of some bytes.
pub open spec fn digest_text(data: Seq<u8>) -> Seq<char> {
    digest_prefix() + hex_of(sha256_of(data))
}

/// Whether `c` is a lowercase hex digit.
pub open spec fn is_hex_lower(c: char) -> bool {
    ('0' <= c && c <= '9') || ('a' <= c && c <= 'f')
}

/// `sha256:` followed by exactly 64 lowercase hex digits.
pub open spec fn is_digest_text(s: Seq<char>) -> bool {
    &&& s.len() == 71
    &&& s.subrange(0, 7) == digest_prefix()
    &&& forall|i: int| 7 <= i < 71 ==> is_hex_lower(#[trigger] s[i])
}

fn hex_digit_text(n: u8) -> (r: &'static str)
    requires
        n < 16,
    ensures
        r@ == seq![hex_digit(n)],
{
    proof {
        reveal_strlit("0"); reveal_strlit("1"); reveal_strlit("2"); reveal_strlit("3");
        reveal_strlit("4"); reveal_strlit("5"); reveal_strlit("6"); reveal_strlit("7");
        reveal_strlit("8"); reveal_strlit("9"); reveal_strlit("a"); reveal_strlit("b");
        reveal_strlit("c"); reveal_strlit("d"); reveal_strlit("e"); reveal_strlit("f");
    }
    match n {
        0 => "0",
        1 => "1",
        2 => "2",
        3 => "3",
        4 => "4",
        5 => "5",
        6 => "6",
        7 => "7",
        8 => "8",
        9 => "9",
        10 => "a",
        11 => "b",
        12 => "c",
        13 => "d",
        14 => "e",
        _ => "f",
    }
}

proof fn lemma_hex_of_push(bytes: Seq<u8>, b: u8)
    ensures
        hex_of(bytes.push(b)) == hex_of(bytes) + seq![hex_digit(b / 16), hex_digit(b % 16)],
    decreases bytes.len(),
{
    if bytes.len() == 0 {
        assert(bytes.push(b).drop_first() =~= Seq::<u8>::empty());
        assert(hex_of(Seq::<u8>::empty()) =~= Seq::<char>::empty());
        assert(hex_of(bytes.push(b)) =~= seq![hex_digit(b / 16), hex_digit(b % 16)] + Seq::<char>::empty());
    } else {
        assert(bytes.push(b).drop_first() =~= bytes.drop_first().push(b));
        lemma_hex_of_push(bytes.drop_first(), b);
        assert(bytes.push(b)[0] == bytes[0]);
    }
}

/// Appends the lowercase hex spelling of `bytes` to `out`.
pub fn push_hex(out: &mut String, bytes: &[u8])
    ensures
        final(out)@ == old(out)@ + hex_of(bytes@),
{
    let mut i: usize = 0;
    while i < bytes.len()
        invariant
            i <= bytes@.len(),
            out@ == old(out)@ + hex_of(bytes@.subrange(0, i as int)),
        decreases bytes@.len() - i,
    {
        let b = bytes[i];
        proof {
            lemma_hex_of_push(bytes@.subrange(0, i as int), b);
            assert(bytes@.subrange(0, i as int).push(b) =~= bytes@.subrange(0, i + 1));
        }
        out.append(hex_digit_text(b / 16));
        out.append(hex_digit_text(b % 16));
        i = i + 1;
    }
    assert(bytes@.subrange(0, bytes@.len() as int) =~= bytes@);
}

/// The lowercase hex spelling of the SHA-256 digest of `data`.
pub fn sha256_hex(data: &[u8]) -> (r: String)
    ensures
        r@ == hex_of(sha256_of(data@)),
        r@.len() == 64,
{
    let digest = sha256_bytes(data);
    let mut out = String::new();
    push_hex(&mut out, digest.as_slice());
    proof { lemma_hex_of_len(digest@); }
    out
}

/// Two hex digits per byte.
pub proof fn lemma_hex_of_len(bytes: Seq<u8>)
    ensures
        hex_of(bytes).len() == 2 * bytes.len(),
    decreases bytes.len(),
{
    if bytes.len() > 0 {
        lemma_hex_of_len(bytes.drop_first());
    }
}

/// The `sha256:<hex>` digest of `data`.
pub fn sha256_digest(data: &[u8]) -> (r: String)
    ensures
        r@ == digest_text(data@),
        is_digest_text(r@),
{
    let digest = sha256_bytes(data);
    let mut out = String::new();
    proof {
        reveal_strlit("sha256:");
        assert("sha256:"@ =~= digest_prefix());
    }
    out.append("sha256:");
    push_hex(&mut out, digest.as_slice());
    proof {
        lemma_hex_of_shape(digest@);
        let t = out@;
        assert(t.subrange(0, 7) =~= digest_prefix());
        assert forall|i: int| 7 <= i < 71 implies is_hex_lower(#[trigger] t[i]) by {
            assert(t[i] == hex_of(digest@)[i - 7]);
        }
    }
    out
}

proof fn lemma_hex_of_shape(bytes: Seq<u8>)
    ensures
        hex_of(bytes).len() == 2 * bytes.len(),
        forall|i: int| 0 <= i < hex_of(bytes).len() ==> is_hex_lower(#[trigger] hex_of(bytes)[i]),
    decreases bytes.len(),
{
    if bytes.len() > 0 {
        lemma_hex_of_shape(bytes.drop_first());
        let head = seq![hex_digit(bytes[0] / 16), hex_digit(bytes[0] % 16)];
        assert forall|i: int| 0 <= i < hex_of(bytes).len() implies is_hex_lower(#[trigger] hex_of(bytes)[i]) by {
            if i >= 2 {
                assert(hex_of(bytes)[i] == hex_of(bytes.drop_first())[i - 2]);
            }
        }
    }
}

/// Whether a text is one `sha256:` digest of the crate's spelling.
pub fn is_digest(text: &str) -> (r: bool)
    ensures
        r == is_digest_text(text@),
{
    let n = text.unicode_len();
    if n != 71 {
        return false;
    }
    proof {
        reveal_strlit("sha256:");
        assert("sha256:"@ =~= digest_prefix());
    }
    let prefix = crate::text::str_starts_with(text, "sha256:");
    if !prefix {
        return false;
    }
    let mut i: usize = 7;
    while i < 71
        invariant
            n == text@.len(),
            n == 71,
            7 <= i <= 71,
            forall|j: int| 7 <= j < i ==> is_hex_lower(#[trigger] text@[j]),
        decreases 71 - i,
    {
        let c = text.get_char(i);
        if !(('0' <= c && c <= '9') || ('a' <= c && c <= 'f')) {
            return false;
        }
        i = i + 1;
    }
    true
}

} // verus!
