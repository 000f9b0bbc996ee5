//! Byte-level text utilities: ASCII case folding, substring containment,
//! whitespace tokenization and lexicographic ordering.
//!
//! Matching works on the UTF-8 bytes of the texts involved.  Case folding
//! touches only the ASCII letters, so "case-insensitive" throughout the
//! library means "insensitive to ASCII case"; the caller-supplied query is
//! matched literally, with no wildcard characters.

use vstd::prelude::*;
use vstd::string::StringSliceAdditionalSpecFns;

verus! {

/// ASCII whitespace, as the tokenizer understands it: space and the
/// control characters tab through carriage return.
pub open spec fn is_space(b: u8) -> bool {
    b == 32 || (9 <= b && b <= 13)
}

/// ASCII case folding of one byte; bytes other than `A`..=`Z` are unchanged.
pub open spec fn fold_byte(b: u8) -> u8 {
    if 65 <= b && b <= 90 {
        (b + 32) as u8
    } else {
        b
    }
}

/// ASCII case folding of a whole byte sequence.
pub open spec fn fold_bytes(s: Seq<u8>) -> Seq<u8> {
    s.map_values(|b: u8| fold_byte(b))
}

/// `needle` occurs contiguously inside `hay` (the empty needle always does).
pub open spec fn is_substring(needle: Seq<u8>, hay: Seq<u8>) -> bool {
    exists|i: int|
        0 <= i && i + needle.len() <= hay.len() && #[trigger] hay.subrange(i, i + needle.len())
            == needle
}

/// Lowercases the ASCII letters of `s`.
pub fn ascii_fold(s: &[u8]) -> (r: Vec<u8>)
    ensures
        r@ == fold_bytes(s@),
{
    let mut r: Vec<u8> = Vec::new();
    let mut i: usize = 0;
    while i < s.len()
        invariant
            i <= s@.len(),
            r@ == fold_bytes(s@.take(i as int)),
        decreases s@.len() - i,
    {
        let b = s[i];
        let fb = if 65 <= b && b <= 90 {
            b + 32
        } else {
            b
        };
        r.push(fb);
        proof {
            assert(r@ =~= fold_bytes(s@.take(i as int + 1)));
        }
        i += 1;
    }
    proof {
        assert(s@.take(s@.len() as int) =~= s@);
    }
    r
}

/// The bytes of `hay` starting at `at` begin with `needle`.
fn matches_at(hay: &[u8], needle: &[u8], at: usize) -> (r: bool)
    requires
        at + needle@.len() <= hay@.len(),
    ensures
        r == (hay@.subrange(at as int, at as int + needle@.len() as int) == needle@),
{
    let hay_len = hay.len();
    let mut j: usize = 0;
    while j < needle.len()
        invariant
            j <= needle@.len(),
            at + needle@.len() <= hay@.len(),
            hay@.len() == hay_len,
            forall|k: int| 0 <= k < j ==> hay@[at + k] == needle@[k],
        decreases needle@.len() - j,
    {
        if hay[at + j] != needle[j] {
            proof {
                assert(hay@.subrange(at as int, at as int + needle@.len() as int)[j as int]
                    != needle@[j as int]);
            }
            return false;
        }
        j += 1;
    }
    proof {
        assert(hay@.subrange(at as int, at as int + needle@.len() as int) =~= needle@);
    }
    true
}

/// Whether `needle` occurs as a contiguous run of bytes inside `hay`.
pub fn contains_bytes(hay: &[u8], needle: &[u8]) -> (r: bool)
    ensures
        r == is_substring(needle@, hay@),
{
    if needle.len() > hay.len() {
        return false;
    }
    let last = hay.len() - needle.len();
    let mut i: usize = 0;
    while i < last
        invariant
            needle@.len() <= hay@.len(),
            i <= last,
            last == hay@.len() - needle@.len(),
            forall|k: int|
                0 <= k < i ==> #[trigger] hay@.subrange(k, k + needle@.len() as int) != needle@,
        decreases last - i,
    {
        if matches_at(hay, needle, i) {
            return true;
        }
        i += 1;
    }
    if matches_at(hay, needle, last) {
        return true;
    }
    proof {
        assert(forall|k: int|
            0 <= k && k + needle@.len() <= hay@.len()
                ==> #[trigger] hay@.subrange(k, k + needle@.len() as int) != needle@);
    }
    false
}

/// First position at or after `i` holding whitespace (or the end of `s`):
/// the exclusive end of the token starting at `i`.
pub open spec fn token_end(s: Seq<u8>, i: int) -> int
    decreases s.len() - i,
{
    if i < 0 || i >= s.len() || is_space(s[i]) {
        i
    } else {
        token_end(s, i + 1)
    }
}

/// `token_end` stays within bounds, skips only non-whitespace bytes, and
/// stops at whitespace or the end of the sequence.
pub proof fn lemma_token_end(s: Seq<u8>, i: int)
    requires
        0 <= i <= s.len(),
    ensures
        i <= token_end(s, i) <= s.len(),
        forall|k: int| i <= k < token_end(s, i) ==> !is_space(s[k]),
        token_end(s, i) < s.len() ==> is_space(s[token_end(s, i)]),
        i < s.len() && !is_space(s[i]) ==> token_end(s, i) > i,
    decreases s.len() - i,
{
    if i < s.len() && !is_space(s[i]) {
        lemma_token_end(s, i + 1);
    }
}

/// `token_end(s, i)` is the unique position `e` such that everything in
/// `[i, e)` is non-whitespace and `e` hits whitespace or the end.
pub proof fn lemma_token_end_unique(s: Seq<u8>, i: int, e: int)
    requires
        0 <= i <= e <= s.len(),
        forall|k: int| i <= k < e ==> !is_space(s[k]),
        e == s.len() || is_space(s[e]),
    ensures
        token_end(s, i) == e,
    decreases e - i,
{
    if i < e {
        lemma_token_end_unique(s, i + 1, e);
    }
}

/// The whitespace-separated tokens of `s` from position `i` on.
pub open spec fn tokens_from(s: Seq<u8>, i: int) -> Seq<Seq<u8>>
    decreases s.len() - i,
    via tokens_from_decreases
{
    if i < 0 || i >= s.len() {
        Seq::empty()
    } else if is_space(s[i]) {
        tokens_from(s, i + 1)
    } else {
        seq![s.subrange(i, token_end(s, i))] + tokens_from(s, token_end(s, i))
    }
}

#[via_fn]
proof fn tokens_from_decreases(s: Seq<u8>, i: int) {
    if 0 <= i && i < s.len() && !is_space(s[i]) {
        lemma_token_end(s, i);
    }
}

/// The whitespace-separated tokens of `s`, in order of occurrence;
/// every token is non-empty and duplicates are kept.
pub open spec fn tokens(s: Seq<u8>) -> Seq<Seq<u8>> {
    tokens_from(s, 0)
}

/// A sequence of nothing but whitespace has no tokens.
pub proof fn lemma_tokens_all_space(s: Seq<u8>, i: int)
    requires
        0 <= i <= s.len(),
        forall|k: int| 0 <= k < s.len() ==> is_space(s[k]),
    ensures
        tokens_from(s, i) == Seq::<Seq<u8>>::empty(),
    decreases s.len() - i,
{
    if i < s.len() {
        lemma_tokens_all_space(s, i + 1);
    }
}

/// The views of a sequence of byte vectors.
pub open spec fn byte_views(ts: Seq<Vec<u8>>) -> Seq<Seq<u8>> {
    ts.map_values(|t: Vec<u8>| t@)
}

/// Splits `s` into its whitespace-separated tokens.
pub fn tokenize(s: &[u8]) -> (r: Vec<Vec<u8>>)
    ensures
        byte_views(r@) == tokens(s@),
{
    let mut out: Vec<Vec<u8>> = Vec::new();
    let mut i: usize = 0;
    while i < s.len()
        invariant
            i <= s@.len(),
            tokens(s@) == byte_views(out@) + tokens_from(s@, i as int),
        decreases s@.len() - i,
    {
        let b = s[i];
        if b == 32 || (9 <= b && b <= 13) {
            i += 1;
        } else {
            let mut tok: Vec<u8> = Vec::new();
            let mut j: usize = i;
            while j < s.len() && !(s[j] == 32 || (9 <= s[j] && s[j] <= 13))
                invariant
                    i <= j <= s@.len(),
                    tok@ == s@.subrange(i as int, j as int),
                    forall|k: int| i <= k < j ==> !is_space(s@[k]),
                decreases s@.len() - j,
            {
                tok.push(s[j]);
                proof {
                    assert(tok@ =~= s@.subrange(i as int, j as int + 1));
                }
                j += 1;
            }
            proof {
                lemma_token_end_unique(s@, i as int, j as int);
                assert(byte_views(out@.push(tok)) =~= byte_views(out@).push(tok@));
                assert(byte_views(out@) + tokens_from(s@, i as int)
                    =~= byte_views(out@.push(tok)) + tokens_from(s@, j as int));
            }
            out.push(tok);
            i = j;
        }
    }
    proof {
        assert(byte_views(out@) + tokens_from(s@, i as int) =~= byte_views(out@));
    }
    out
}

/// Byte-wise lexicographic order: `a` sorts at or before `b`.
pub open spec fn lex_leq(a: Seq<u8>, b: Seq<u8>) -> bool
    decreases a.len(),
{
    if a.len() == 0 {
        true
    } else if b.len() == 0 {
        false
    } else if a[0] < b[0] {
        true
    } else if a[0] > b[0] {
        false
    } else {
        lex_leq(a.drop_first(), b.drop_first())
    }
}

/// Lexicographic order is total.
pub proof fn lemma_lex_total(a: Seq<u8>, b: Seq<u8>)
    ensures
        lex_leq(a, b) || lex_leq(b, a),
    decreases a.len(),
{
    if a.len() > 0 && b.len() > 0 && a[0] == b[0] {
        lemma_lex_total(a.drop_first(), b.drop_first());
    }
}

/// Lexicographic order is transitive.
pub proof fn lemma_lex_trans(a: Seq<u8>, b: Seq<u8>, c: Seq<u8>)
    requires
        lex_leq(a, b),
        lex_leq(b, c),
    ensures
        lex_leq(a, c),
    decreases a.len(),
{
    if a.len() > 0 && b.len() > 0 && c.len() > 0 && a[0] == b[0] && b[0] == c[0] {
        lemma_lex_trans(a.drop_first(), b.drop_first(), c.drop_first());
    }
}

/// Compares two byte slices lexicographically, starting at offset `i`
/// over their common prefix already known equal.
fn lex_leq_from(a: &[u8], b: &[u8], i: usize) -> (r: bool)
    requires
        i <= a@.len(),
        i <= b@.len(),
    ensures
        r == lex_leq(a@.skip(i as int), b@.skip(i as int)),
    decreases a@.len() - i,
{
    if i == a.len() {
        return true;
    }
    if i == b.len() {
        proof {
            assert(a@.skip(i as int).len() > 0);
            assert(b@.skip(i as int).len() == 0);
        }
        return false;
    }
    proof {
        assert(a@.skip(i as int)[0] == a@[i as int]);
        assert(b@.skip(i as int)[0] == b@[i as int]);
        assert(a@.skip(i as int).drop_first() =~= a@.skip(i as int + 1));
        assert(b@.skip(i as int).drop_first() =~= b@.skip(i as int + 1));
    }
    if a[i] < b[i] {
        true
    } else if a[i] > b[i] {
        false
    } else {
        lex_leq_from(a, b, i + 1)
    }
}

/// Whether `a` sorts at or before `b` in byte-wise lexicographic order.
pub fn lex_leq_bytes(a: &[u8], b: &[u8]) -> (r: bool)
    ensures
        r == lex_leq(a@, b@),
{
    proof {
        assert(a@.skip(0) =~= a@);
        assert(b@.skip(0) =~= b@);
    }
    lex_leq_from(a, b, 0)
}

/// Whether two byte slices hold the same bytes.
pub fn bytes_eq(a: &[u8], b: &[u8]) -> (r: bool)
    ensures
        r == (a@ == b@),
{
    if a.len() != b.len() {
        return false;
    }
    let mut i: usize = 0;
    while i < a.len()
        invariant
            a@.len() == b@.len(),
            i <= a@.len(),
            forall|k: int| 0 <= k < i ==> a@[k] == b@[k],
        decreases a@.len() - i,
    {
        if a[i] != b[i] {
            return false;
        }
        i += 1;
    }
    proof {
        assert(a@ =~= b@);
    }
    true
}

/// Whether two string slices are the same text, compared byte-wise.
pub fn str_eq(a: &str, b: &str) -> (r: bool)
    ensures
        r == (a.spec_bytes() == b.spec_bytes()),
{
    bytes_eq(a.as_bytes(), b.as_bytes())
}

} // verus!
