//! The relevance scorer: a lexical score per result and a stable re-sort
//! by score descending.
//!
//! The query is split on whitespace into lowercase keyword tokens
//! (duplicates kept).  Each keyword adds 2 to a result's raw score when it
//! occurs in the lowercased title and 1 when it occurs in the lowercased
//! body; the raw score is normalised by `3 x number of keywords`, kept as
//! an exact rational.  A query with no keywords gives every result score
//! zero and leaves the order unchanged.  The sort is stable: results with
//! equal scores keep their pre-sort relative order, which the sort
//! realises by breaking ties on the original match rank it assigns from
//! the input positions.

use vstd::prelude::*;
use vstd::string::StringSliceAdditionalSpecFns;
use vstd::utf8::encode_utf8;

use crate::models::{ProtocolSearchResult, RelevanceScore, ResultView, ScoreView, views_of};
use crate::text::{
    ascii_fold, byte_views, contains_bytes, fold_bytes, is_substring, tokenize, tokens,
};

verus! {

/// The lowercase keyword tokens of a query text.
pub open spec fn query_keywords(q: Seq<char>) -> Seq<Seq<u8>> {
    tokens(fold_bytes(encode_utf8(q)))
}

/// The lowercased title bytes of a result.
pub open spec fn folded_title(r: ResultView) -> Seq<u8> {
    fold_bytes(encode_utf8(r.protocol_title))
}

/// The lowercased body bytes of a result.
pub open spec fn folded_content(r: ResultView) -> Seq<u8> {
    fold_bytes(encode_utf8(r.content))
}

/// What one keyword contributes to a result's raw score: 2 for a title
/// hit plus 1 for a body hit, the two checks independent.
pub open spec fn keyword_points(t: Seq<u8>, r: ResultView) -> int {
    (if is_substring(t, folded_title(r)) {
        2int
    } else {
        0int
    }) + (if is_substring(t, folded_content(r)) {
        1int
    } else {
        0int
    })
}

/// The raw (unnormalised) score of a result over a keyword list; every
/// keyword occurrence counts independently.
pub open spec fn raw_score(toks: Seq<Seq<u8>>, r: ResultView) -> int
    decreases toks.len(),
{
    if toks.len() == 0 {
        0
    } else {
        raw_score(toks.drop_last(), r) + keyword_points(toks.last(), r)
    }
}

/// A raw score lies between 0 and three points per keyword.
pub proof fn lemma_raw_score_bounds(toks: Seq<Seq<u8>>, r: ResultView)
    ensures
        0 <= raw_score(toks, r) <= 3 * toks.len(),
    decreases toks.len(),
{
    if toks.len() > 0 {
        lemma_raw_score_bounds(toks.drop_last(), r);
    }
}

/// The normalisation denominator: three points per keyword; one keyword
/// short of a division by zero, a keywordless query divides by 1 (its raw
/// score is 0 anyway, so the score is exactly zero).
pub open spec fn score_denominator(k: int) -> int {
    if k == 0 {
        1
    } else {
        3 * k
    }
}

/// A result after scoring: the exact rational score and the original
/// match rank `i`, all other fields unchanged.
pub open spec fn scored_one(r: ResultView, toks: Seq<Seq<u8>>, i: int) -> ResultView {
    ResultView {
        relevance_score: ScoreView {
            num: raw_score(toks, r),
            den: score_denominator(toks.len() as int),
        },
        match_rank: i,
        ..r
    }
}

/// A whole result sequence after scoring, ranks taken from positions.
pub open spec fn scored_all(s: Seq<ResultView>, toks: Seq<Seq<u8>>) -> Seq<ResultView> {
    Seq::new(s.len(), |i: int| scored_one(s[i], toks, i))
}

/// `a` may stay in front of `b` when sorting by score descending: its
/// score numerator is strictly larger, or the scores tie and its original
/// match rank is not larger.  All results of one scoring pass share a
/// denominator, so comparing numerators compares scores.
pub open spec fn keeps_before(a: ResultView, b: ResultView) -> bool {
    a.relevance_score.num > b.relevance_score.num || (a.relevance_score.num
        == b.relevance_score.num && a.match_rank <= b.match_rank)
}

/// Descending-score order with rank tie-break, over a whole sequence.
pub open spec fn ranked_order(s: Seq<ResultView>) -> bool {
    forall|i: int, j: int| 0 <= i < j < s.len() ==> keeps_before(#[trigger] s[i], #[trigger] s[j])
}

/// Where a newly scored result lands among already sorted ones: after
/// every element that keeps before it, before the rest.
pub open spec fn sort_insert(x: ResultView, s: Seq<ResultView>) -> Seq<ResultView>
    decreases s.len(),
{
    if s.len() == 0 {
        seq![x]
    } else if keeps_before(s[0], x) {
        seq![s[0]] + sort_insert(x, s.drop_first())
    } else {
        seq![x] + s
    }
}

/// The stable sort itself: results are inserted left to right, each after
/// its equals, so equal scores keep their input order.
pub open spec fn sort_ranked(s: Seq<ResultView>) -> Seq<ResultView>
    decreases s.len(),
{
    if s.len() == 0 {
        Seq::empty()
    } else {
        sort_insert(s.last(), sort_ranked(s.drop_last()))
    }
}

/// The scorer's whole effect: score every result against the query's
/// keywords, then stably sort by score descending.
pub open spec fn ranked(s: Seq<ResultView>, q: Seq<char>) -> Seq<ResultView> {
    sort_ranked(scored_all(s, query_keywords(q)))
}

/// `sort_insert` places its element at the first position whose occupant
/// does not keep before it.
proof fn lemma_sort_insert_at(x: ResultView, s: Seq<ResultView>, j: int)
    requires
        0 <= j <= s.len(),
        forall|k: int| 0 <= k < j ==> keeps_before(#[trigger] s[k], x),
        j < s.len() ==> !keeps_before(s[j], x),
    ensures
        sort_insert(x, s) == s.insert(j, x),
    decreases s.len(),
{
    if s.len() == 0 {
        assert(sort_insert(x, s) =~= s.insert(0, x));
    } else if j == 0 {
        assert(sort_insert(x, s) =~= s.insert(0, x));
    } else {
        lemma_sort_insert_at(x, s.drop_first(), j - 1);
        assert(seq![s[0]] + s.drop_first().insert(j - 1, x) =~= s.insert(j, x));
    }
}

/// Every insertion is an insertion at some position.
proof fn lemma_sort_insert_somewhere(x: ResultView, s: Seq<ResultView>)
    ensures
        exists|j: int| 0 <= j <= s.len() && sort_insert(x, s) == #[trigger] s.insert(j, x),
    decreases s.len(),
{
    if s.len() == 0 {
        assert(sort_insert(x, s) =~= s.insert(0, x));
    } else if keeps_before(s[0], x) {
        lemma_sort_insert_somewhere(x, s.drop_first());
        let j = choose|j: int|
            0 <= j <= s.drop_first().len() && sort_insert(x, s.drop_first())
                == #[trigger] s.drop_first().insert(j, x);
        assert(seq![s[0]] + s.drop_first().insert(j, x) =~= s.insert(j + 1, x));
    } else {
        assert(sort_insert(x, s) =~= s.insert(0, x));
    }
}

/// Inserting keeps the order: the result of inserting into an ordered
/// sequence is ordered.
proof fn lemma_sort_insert_ordered(x: ResultView, s: Seq<ResultView>)
    requires
        ranked_order(s),
    ensures
        ranked_order(sort_insert(x, s)),
        sort_insert(x, s).len() == s.len() + 1,
    decreases s.len(),
{
    if s.len() == 0 {
    } else if keeps_before(s[0], x) {
        assert(ranked_order(s.drop_first()));
        lemma_sort_insert_ordered(x, s.drop_first());
        let t = sort_insert(x, s.drop_first());
        lemma_sort_insert_somewhere(x, s.drop_first());
        let j = choose|j: int|
            0 <= j <= s.drop_first().len() && t == #[trigger] s.drop_first().insert(j, x);
        assert forall|m: int| 0 <= m < t.len() implies keeps_before(s[0], #[trigger] t[m]) by {
            if m < j {
                assert(t[m] == s.drop_first()[m]);
            } else if m == j {
                assert(t[m] == x);
            } else {
                assert(t[m] == s.drop_first()[m - 1]);
            }
        }
        assert(ranked_order(seq![s[0]] + t)) by {
            let u = seq![s[0]] + t;
            assert forall|i: int, j2: int|
                0 <= i < j2 < u.len() implies keeps_before(#[trigger] u[i], #[trigger] u[j2]) by {
                if i == 0 {
                    assert(u[j2] == t[j2 - 1]);
                } else {
                    assert(u[i] == t[i - 1] && u[j2] == t[j2 - 1]);
                }
            }
        }
    } else {
        assert forall|m: int| 0 <= m < s.len() implies keeps_before(x, #[trigger] s[m]) by {
            if m > 0 {
                assert(keeps_before(s[0], s[m]));
            }
        }
        let u = seq![x] + s;
        assert forall|i: int, j2: int|
            0 <= i < j2 < u.len() implies keeps_before(#[trigger] u[i], #[trigger] u[j2]) by {
            if i == 0 {
                assert(u[j2] == s[j2 - 1]);
            } else {
                assert(u[i] == s[i - 1] && u[j2] == s[j2 - 1]);
            }
        }
    }
}

/// The sorted sequence is ordered and has the input's length.
pub proof fn lemma_sort_ranked_ordered(s: Seq<ResultView>)
    ensures
        ranked_order(sort_ranked(s)),
        sort_ranked(s).len() == s.len(),
    decreases s.len(),
{
    if s.len() > 0 {
        lemma_sort_ranked_ordered(s.drop_last());
        lemma_sort_insert_ordered(s.last(), sort_ranked(s.drop_last()));
    }
}

/// Sorting neither loses nor invents results: the sorted sequence is a
/// permutation of the input.
pub proof fn lemma_sort_ranked_permutes(s: Seq<ResultView>)
    ensures
        sort_ranked(s).to_multiset() == s.to_multiset(),
    decreases s.len(),
{
    if s.len() == 0 {
        assert(s =~= Seq::<ResultView>::empty());
    } else {
        let s2 = s.drop_last();
        let x = s.last();
        lemma_sort_ranked_permutes(s2);
        let t = sort_ranked(s2);
        assert(sort_ranked(s) == sort_insert(x, t));
        lemma_sort_insert_somewhere(x, t);
        let j = choose|j: int| 0 <= j <= t.len() && sort_insert(x, t) == #[trigger] t.insert(j, x);
        assert(sort_insert(x, t) == t.insert(j, x));
        vstd::seq_lib::to_multiset_insert(t, j, x);
        assert(sort_ranked(s).to_multiset() == t.to_multiset().insert(x));
        vstd::seq_lib::to_multiset_insert(s2, s2.len() as int, x);
        assert(s2.insert(s2.len() as int, x) =~= s);
        assert(s.to_multiset() == s2.to_multiset().insert(x));
    }
}

/// Some element of `s` carries match rank `r`.
pub open spec fn has_rank(s: Seq<ResultView>, r: int) -> bool {
    exists|i: int| 0 <= i < s.len() && #[trigger] s[i].match_rank == r
}

/// No two elements of `s` share a match rank.
pub open spec fn distinct_ranks(s: Seq<ResultView>) -> bool {
    forall|i: int, j: int|
        0 <= i < j < s.len() ==> #[trigger] s[i].match_rank != #[trigger] s[j].match_rank
}

/// Sorting preserves which ranks occur and keeps distinct ranks distinct.
#[verifier::rlimit(50)]
proof fn lemma_sort_ranked_ranks(s: Seq<ResultView>)
    requires
        distinct_ranks(s),
    ensures
        distinct_ranks(sort_ranked(s)),
        forall|r: int| has_rank(sort_ranked(s), r) <==> has_rank(s, r),
    decreases s.len(),
{
    if s.len() > 0 {
        let s2 = s.drop_last();
        let x = s.last();
        assert(distinct_ranks(s2));
        lemma_sort_ranked_ranks(s2);
        let t = sort_ranked(s2);
        assert(sort_ranked(s) == sort_insert(x, t));
        lemma_sort_insert_somewhere(x, t);
        let j = choose|j: int| 0 <= j <= t.len() && sort_insert(x, t) == #[trigger] t.insert(j, x);
        let u = t.insert(j, x);
        t.insert_ensures(j, x);
        assert(!has_rank(s2, x.match_rank)) by {
            if has_rank(s2, x.match_rank) {
                let i = choose|i: int|
                    0 <= i < s2.len() && #[trigger] s2[i].match_rank == x.match_rank;
                assert(s[i].match_rank == s[s.len() - 1].match_rank);
            }
        }
        assert(!has_rank(t, x.match_rank));
        assert forall|r: int| has_rank(u, r) implies has_rank(s, r) by {
            let i = choose|i: int| 0 <= i < u.len() && #[trigger] u[i].match_rank == r;
            if i == j {
                assert(s[s.len() - 1].match_rank == r);
            } else {
                let ti: int = if i < j {
                    i
                } else {
                    i - 1
                };
                assert(u[i] == t[ti]);
                assert(has_rank(t, r));
                assert(has_rank(s2, r));
                let k = choose|k: int| 0 <= k < s2.len() && #[trigger] s2[k].match_rank == r;
                assert(s[k].match_rank == r);
            }
        }
        assert forall|r: int| has_rank(s, r) implies has_rank(u, r) by {
            let i = choose|i: int| 0 <= i < s.len() && #[trigger] s[i].match_rank == r;
            if i == s.len() - 1 {
                assert(u[j].match_rank == r);
            } else {
                assert(s2[i].match_rank == r);
                assert(has_rank(s2, r));
                assert(has_rank(t, r));
                let k = choose|k: int| 0 <= k < t.len() && #[trigger] t[k].match_rank == r;
                if k < j {
                    assert(u[k].match_rank == r);
                } else {
                    assert(u[k + 1].match_rank == r);
                }
            }
        }
        assert forall|a: int, b: int|
            0 <= a < b < u.len() implies #[trigger] u[a].match_rank
            != #[trigger] u[b].match_rank by {
            if a == j || b == j {
                let other: int = if a == j {
                    b
                } else {
                    a
                };
                let ti: int = if other < j {
                    other
                } else {
                    other - 1
                };
                assert(u[other] == t[ti]);
                assert(has_rank(t, t[ti].match_rank));
            } else {
                let ta: int = if a < j {
                    a
                } else {
                    a - 1
                };
                let tb: int = if b < j {
                    b
                } else {
                    b - 1
                };
                assert(u[a] == t[ta] && u[b] == t[tb]);
            }
        }
        assert(distinct_ranks(u));
    }
}

/// The scored sequence carries its positions as ranks, which are distinct.
proof fn lemma_scored_all_ranks(s: Seq<ResultView>, toks: Seq<Seq<u8>>)
    ensures
        distinct_ranks(scored_all(s, toks)),
        forall|i: int|
            0 <= i < s.len() ==> (#[trigger] scored_all(s, toks)[i]) == scored_one(s[i], toks, i),
{
}

/// Stability of the re-sort: two ranked results with equal scores appear
/// in the order of their original match ranks, that is, in their pre-sort
/// relative order.
pub proof fn lemma_ranked_stable(s: Seq<ResultView>, q: Seq<char>, i: int, j: int)
    requires
        0 <= i < j < ranked(s, q).len(),
        ranked(s, q)[i].relevance_score.num == ranked(s, q)[j].relevance_score.num,
    ensures
        ranked(s, q)[i].match_rank < ranked(s, q)[j].match_rank,
{
    let scored = scored_all(s, query_keywords(q));
    lemma_scored_all_ranks(s, query_keywords(q));
    lemma_sort_ranked_ordered(scored);
    lemma_sort_ranked_ranks(scored);
    assert(keeps_before(ranked(s, q)[i], ranked(s, q)[j]));
}

/// An already ordered sequence is its own sort.
proof fn lemma_sort_insert_back(x: ResultView, s: Seq<ResultView>)
    requires
        forall|k: int| 0 <= k < s.len() ==> keeps_before(#[trigger] s[k], x),
    ensures
        sort_insert(x, s) == s.push(x),
    decreases s.len(),
{
    lemma_sort_insert_at(x, s, s.len() as int);
    assert(s.insert(s.len() as int, x) =~= s.push(x));
}

/// Sorting an ordered sequence changes nothing.
pub proof fn lemma_sort_ranked_of_ordered(s: Seq<ResultView>)
    requires
        ranked_order(s),
    ensures
        sort_ranked(s) == s,
    decreases s.len(),
{
    if s.len() > 0 {
        assert(ranked_order(s.drop_last()));
        lemma_sort_ranked_of_ordered(s.drop_last());
        lemma_sort_insert_back(s.last(), s.drop_last());
        assert(s.drop_last().push(s.last()) =~= s);
    }
}

/// A query with no keywords scores every result zero and leaves the order
/// exactly as it was: ranking degenerates to stamping a zero score and
/// the positional rank onto each result.
pub proof fn lemma_empty_query_keeps_order(s: Seq<ResultView>, q: Seq<char>)
    requires
        query_keywords(q).len() == 0,
    ensures
        ranked(s, q) == scored_all(s, query_keywords(q)),
        forall|i: int|
            0 <= i < s.len() ==> (#[trigger] ranked(s, q)[i]) == (ResultView {
                relevance_score: ScoreView { num: 0, den: 1 },
                match_rank: i,
                ..s[i]
            }),
{
    let toks = query_keywords(q);
    let scored = scored_all(s, toks);
    assert(forall|i: int, j: int|
        0 <= i < j < scored.len() ==> keeps_before(#[trigger] scored[i], #[trigger] scored[j]));
    lemma_sort_ranked_of_ordered(scored);
}

/// A query whose bytes are all whitespace (an empty one included) has no
/// keywords, so every result's score is zero and the order is unchanged.
pub proof fn lemma_blank_query_no_keywords(q: Seq<char>)
    requires
        forall|i: int|
            0 <= i < encode_utf8(q).len() ==> crate::text::is_space(#[trigger] encode_utf8(q)[i]),
    ensures
        query_keywords(q).len() == 0,
{
    let b = fold_bytes(encode_utf8(q));
    assert forall|i: int| 0 <= i < b.len() implies crate::text::is_space(#[trigger] b[i]) by {
        assert(b[i] == crate::text::fold_byte(encode_utf8(q)[i]));
    }
    crate::text::lemma_tokens_all_space(b, 0);
}

/// Compares two scored results for the stable descending sort.
fn result_keeps_before(a: &ProtocolSearchResult, b: &ProtocolSearchResult) -> (r: bool)
    ensures
        r == keeps_before(a@, b@),
{
    a.relevance_score.num > b.relevance_score.num || (a.relevance_score.num
        == b.relevance_score.num && a.match_rank <= b.match_rank)
}

/// Inserts a scored result after every already placed result that keeps
/// before it.
fn insert_ranked(v: &mut Vec<ProtocolSearchResult>, x: ProtocolSearchResult)
    ensures
        views_of(final(v)@) == sort_insert(x@, views_of(old(v)@)),
{
    let ghost sv = views_of(v@);
    let mut j: usize = 0;
    while j < v.len() && result_keeps_before(&v[j], &x)
        invariant
            j <= v@.len(),
            sv == views_of(v@),
            forall|k: int| 0 <= k < j ==> keeps_before(#[trigger] sv[k], x@),
        decreases v@.len() - j,
    {
        j += 1;
    }
    proof {
        lemma_sort_insert_at(x@, sv, j as int);
    }
    v.insert(j, x);
    proof {
        assert(views_of(v@) =~= sv.insert(j as int, x@));
    }
}

/// Computes the raw score of one result against the keyword list.
fn raw_score_of(title_f: &Vec<u8>, content_f: &Vec<u8>, toks: &Vec<Vec<u8>>, rv: Ghost<ResultView>) -> (num: u128)
    requires
        title_f@ == folded_title(rv@),
        content_f@ == folded_content(rv@),
    ensures
        num as int == raw_score(byte_views(toks@), rv@),
{
    let ghost tv = byte_views(toks@);
    let mut num: u128 = 0;
    let mut i: usize = 0;
    while i < toks.len()
        invariant
            i <= toks@.len(),
            tv == byte_views(toks@),
            title_f@ == folded_title(rv@),
            content_f@ == folded_content(rv@),
            num as int == raw_score(tv.take(i as int), rv@),
            num as int <= 3 * i as int,
        decreases toks@.len() - i,
    {
        let mut pts: u128 = 0;
        if contains_bytes(title_f.as_slice(), toks[i].as_slice()) {
            pts += 2;
        }
        if contains_bytes(content_f.as_slice(), toks[i].as_slice()) {
            pts += 1;
        }
        proof {
            assert(tv[i as int] == toks@[i as int]@);
            assert(pts as int == keyword_points(tv[i as int], rv@));
            assert(tv.take(i as int + 1).drop_last() =~= tv.take(i as int));
            assert(tv.take(i as int + 1).last() == tv[i as int]);
        }
        num += pts;
        i += 1;
    }
    proof {
        assert(tv.take(tv.len() as int) =~= tv);
    }
    num
}

/// Scores every result against the query and stably re-sorts by score
/// descending, stamping each result's original position into its
/// `match_rank`.  With no keywords every score is zero and the order is
/// untouched.
pub fn rank_results(results: &mut Vec<ProtocolSearchResult>, query: &str)
    ensures
        views_of(final(results)@) == ranked(views_of(old(results)@), query@),
{
    let ghost orig = views_of(results@);
    let folded_query = ascii_fold(query.as_bytes());
    let toks = tokenize(folded_query.as_slice());
    let ghost tv = byte_views(toks@);
    proof {
        assert(tv == query_keywords(query@));
    }
    let den: u128 = if toks.len() == 0 {
        1
    } else {
        3 * (toks.len() as u128)
    };
    let total = results.len();
    let mut sorted: Vec<ProtocolSearchResult> = Vec::new();
    let mut rank: usize = 0;
    proof {
        assert(orig.take(0) =~= Seq::<ResultView>::empty());
        assert(scored_all(orig.take(0), tv) =~= Seq::<ResultView>::empty());
    }
    while results.len() > 0
        invariant
            rank + results@.len() == orig.len(),
            orig.len() == total as int,
            views_of(results@) == orig.skip(rank as int),
            tv == query_keywords(query@),
            tv == byte_views(toks@),
            den as int == score_denominator(tv.len() as int),
            views_of(sorted@) == sort_ranked(scored_all(orig.take(rank as int), tv)),
        decreases results@.len(),
    {
        let ghost pre = results@;
        proof {
            assert(views_of(pre)[0] == orig.skip(rank as int)[0]);
        }
        let x = results.remove(0);
        proof {
            pre.remove_ensures(0);
            assert(results@ == pre.remove(0));
            assert(x@ == views_of(pre)[0]);
            assert(x@ == orig[rank as int]);
            assert forall|i: int| 0 <= i < results@.len() implies views_of(results@)[i] == orig.skip(
                rank as int + 1,
            )[i] by {
                assert(results@[i] == pre[i + 1]);
                assert(views_of(pre)[i + 1] == orig.skip(rank as int)[i + 1]);
            }
            assert(views_of(results@) =~= orig.skip(rank as int + 1));
        }
        let title_f = ascii_fold(x.protocol_title.as_str().as_bytes());
        let content_f = ascii_fold(x.content.as_str().as_bytes());
        let num = raw_score_of(&title_f, &content_f, &toks, Ghost(x@));
        let scored_x = ProtocolSearchResult {
            relevance_score: RelevanceScore { num, den },
            match_rank: rank,
            ..x
        };
        proof {
            assert(scored_x@ == scored_one(orig[rank as int], tv, rank as int));
            let p = scored_all(orig.take(rank as int), tv);
            assert(scored_all(orig.take(rank as int + 1), tv) =~= p.push(scored_x@));
            assert(p.push(scored_x@).drop_last() =~= p);
        }
        insert_ranked(&mut sorted, scored_x);
        rank += 1;
    }
    proof {
        assert(orig.take(orig.len() as int) =~= orig);
    }
    results.append(&mut sorted);
    proof {
        assert(views_of(results@) =~= ranked(orig, query@));
    }
}

} // verus!
