//! The query filter resolver and search executor.
//!
//! A query plus optional state/county filters resolves to one of four
//! predicate shapes.  Every shape keeps chunks whose title, body or
//! section contains the query text as a case-insensitive substring
//! (matched literally, wildcard characters and all), restricted by the
//! present filters.  The resolved query itself establishes the order:
//! chunks whose title contains the query text come before all others, and
//! within each of those two tiers titles ascend byte-wise, ties keeping
//! corpus order.  The executor truncates to the requested fetch count.

use vstd::prelude::*;
use vstd::string::StringSliceAdditionalSpecFns;
use vstd::utf8::encode_utf8;

use crate::models::{ChunkView, County, CountyView, ProtocolChunk, county_lookup, find_county, views_of};
use crate::text::{ascii_fold, contains_bytes, fold_bytes, is_substring, lex_leq, lex_leq_bytes,
    lemma_lex_total, lemma_lex_trans, str_eq};

verus! {

/// The four predicate shapes a search can resolve to.
pub enum SearchFilter {
    /// Both a state and a county filter are present.
    ByStateAndCounty { state: String, county_id: i32 },
    /// Only a state filter is present.
    ByState { state: String },
    /// Only a county filter is present.
    ByCounty { county_id: i32 },
    /// No filter: the query text alone decides.
    All,
}

/// Mathematical view of a `SearchFilter`.
pub enum FilterView {
    ByStateAndCounty { state: Seq<char>, county_id: int },
    ByState { state: Seq<char> },
    ByCounty { county_id: int },
    All,
}

impl View for SearchFilter {
    type V = FilterView;

    open spec fn view(&self) -> FilterView {
        match self {
            SearchFilter::ByStateAndCounty { state, county_id } => FilterView::ByStateAndCounty {
                state: state@,
                county_id: county_id as int,
            },
            SearchFilter::ByState { state } => FilterView::ByState { state: state@ },
            SearchFilter::ByCounty { county_id } => FilterView::ByCounty {
                county_id: county_id as int,
            },
            SearchFilter::All => FilterView::All,
        }
    }
}

/// The predicate shape that a pair of optional filters resolves to.
pub open spec fn filter_view_of(state: Option<String>, county_id: Option<i32>) -> FilterView {
    match (state, county_id) {
        (Some(s), Some(c)) => FilterView::ByStateAndCounty { state: s@, county_id: c as int },
        (Some(s), None) => FilterView::ByState { state: s@ },
        (None, Some(c)) => FilterView::ByCounty { county_id: c as int },
        (None, None) => FilterView::All,
    }
}

/// Picks the predicate shape that matches which filters are present.
pub fn resolve_filter(state: Option<String>, county_id: Option<i32>) -> (f: SearchFilter)
    ensures
        f@ == filter_view_of(state, county_id),
{
    match (state, county_id) {
        (Some(s), Some(c)) => SearchFilter::ByStateAndCounty { state: s, county_id: c },
        (Some(s), None) => SearchFilter::ByState { state: s },
        (None, Some(c)) => SearchFilter::ByCounty { county_id: c },
        (None, None) => SearchFilter::All,
    }
}

/// The case-folded UTF-8 bytes of a text.
pub open spec fn folded(s: Seq<char>) -> Seq<u8> {
    fold_bytes(encode_utf8(s))
}

/// Two texts hold the same UTF-8 bytes.
pub open spec fn same_text(a: Seq<char>, b: Seq<char>) -> bool {
    encode_utf8(a) == encode_utf8(b)
}

/// The state of the county owning a chunk, if the county exists.
pub open spec fn county_state(cs: Seq<CountyView>, id: int) -> Option<Seq<char>> {
    match county_lookup(cs, id) {
        Some(c) => Some(c.state),
        None => None,
    }
}

/// A chunk's title contains the (already folded) query bytes,
/// case-insensitively: the title hit that drives the two-tier order.
pub open spec fn title_hit(c: ChunkView, qf: Seq<u8>) -> bool {
    is_substring(qf, folded(c.protocol_title))
}

/// The query text occurs in the chunk's title, body or section
/// (case-insensitively; a missing section matches nothing).
pub open spec fn text_matches(c: ChunkView, qf: Seq<u8>) -> bool {
    title_hit(c, qf) || is_substring(qf, folded(c.content)) || (match c.section {
        Some(sec) => is_substring(qf, folded(sec)),
        None => false,
    })
}

/// The present filters accept the chunk: a county filter pins the owning
/// county's id, a state filter requires the owning county to exist and to
/// lie in that state.
pub open spec fn filter_accepts(f: FilterView, c: ChunkView, cs: Seq<CountyView>) -> bool {
    match f {
        FilterView::ByStateAndCounty { state, county_id } => c.county_id == county_id && (
        match county_state(cs, c.county_id) {
            Some(st) => same_text(st, state),
            None => false,
        }),
        FilterView::ByState { state } => match county_state(cs, c.county_id) {
            Some(st) => same_text(st, state),
            None => false,
        },
        FilterView::ByCounty { county_id } => c.county_id == county_id,
        FilterView::All => true,
    }
}

/// A chunk belongs to the result of the resolved query.
pub open spec fn chunk_passes(f: FilterView, c: ChunkView, cs: Seq<CountyView>, qf: Seq<u8>) -> bool {
    text_matches(c, qf) && filter_accepts(f, c, cs)
}

/// The two-tier bucket of a chunk: 0 for a title hit, 1 otherwise.
pub open spec fn bucket(c: ChunkView, qf: Seq<u8>) -> int {
    if title_hit(c, qf) {
        0
    } else {
        1
    }
}

/// `a` may stay in front of `b` in the resolved query's order: a strictly
/// smaller bucket, or the same bucket and a title at or before `b`'s.
pub open spec fn chunk_keeps_before(a: ChunkView, b: ChunkView, qf: Seq<u8>) -> bool {
    bucket(a, qf) < bucket(b, qf) || (bucket(a, qf) == bucket(b, qf) && lex_leq(
        encode_utf8(a.protocol_title),
        encode_utf8(b.protocol_title),
    ))
}

/// The resolved query's order over a whole sequence.
pub open spec fn chunk_ordered(s: Seq<ChunkView>, qf: Seq<u8>) -> bool {
    forall|i: int, j: int|
        0 <= i < j < s.len() ==> chunk_keeps_before(#[trigger] s[i], #[trigger] s[j], qf)
}

/// Where a chunk lands among already ordered ones: after every chunk that
/// keeps before it, so ties keep corpus order.
pub open spec fn chunk_sort_insert(x: ChunkView, s: Seq<ChunkView>, qf: Seq<u8>) -> Seq<ChunkView>
    decreases s.len(),
{
    if s.len() == 0 {
        seq![x]
    } else if chunk_keeps_before(s[0], x, qf) {
        seq![s[0]] + chunk_sort_insert(x, s.drop_first(), qf)
    } else {
        seq![x] + s
    }
}

/// The stable ordering applied by the resolved query.
pub open spec fn chunk_sort(s: Seq<ChunkView>, qf: Seq<u8>) -> Seq<ChunkView>
    decreases s.len(),
{
    if s.len() == 0 {
        Seq::empty()
    } else {
        chunk_sort_insert(s.last(), chunk_sort(s.drop_last(), qf), qf)
    }
}

/// The matching chunks, in corpus order.
pub open spec fn matching(
    chunks: Seq<ChunkView>,
    cs: Seq<CountyView>,
    f: FilterView,
    qf: Seq<u8>,
) -> Seq<ChunkView> {
    chunks.filter(|c: ChunkView| chunk_passes(f, c, cs, qf))
}

/// What the search executor returns: the matching chunks in the resolved
/// query's order, truncated to the fetch count.
pub open spec fn executed(
    chunks: Seq<ChunkView>,
    cs: Seq<CountyView>,
    f: FilterView,
    qf: Seq<u8>,
    fetch: int,
) -> Seq<ChunkView> {
    let sorted = chunk_sort(matching(chunks, cs, f, qf), qf);
    if fetch <= sorted.len() {
        sorted.take(fetch)
    } else {
        sorted
    }
}

/// `chunk_keeps_before` is total: of two chunks, one keeps before the other.
proof fn lemma_chunk_keeps_total(a: ChunkView, b: ChunkView, qf: Seq<u8>)
    ensures
        chunk_keeps_before(a, b, qf) || chunk_keeps_before(b, a, qf),
{
    lemma_lex_total(encode_utf8(a.protocol_title), encode_utf8(b.protocol_title));
}

/// `chunk_keeps_before` is transitive.
proof fn lemma_chunk_keeps_trans(a: ChunkView, b: ChunkView, c: ChunkView, qf: Seq<u8>)
    requires
        chunk_keeps_before(a, b, qf),
        chunk_keeps_before(b, c, qf),
    ensures
        chunk_keeps_before(a, c, qf),
{
    if bucket(a, qf) == bucket(b, qf) && bucket(b, qf) == bucket(c, qf) {
        lemma_lex_trans(
            encode_utf8(a.protocol_title),
            encode_utf8(b.protocol_title),
            encode_utf8(c.protocol_title),
        );
    }
}

/// `chunk_sort_insert` places its chunk at the first position whose
/// occupant does not keep before it.
proof fn lemma_chunk_insert_at(x: ChunkView, s: Seq<ChunkView>, qf: Seq<u8>, j: int)
    requires
        0 <= j <= s.len(),
        forall|k: int| 0 <= k < j ==> chunk_keeps_before(#[trigger] s[k], x, qf),
        j < s.len() ==> !chunk_keeps_before(s[j], x, qf),
    ensures
        chunk_sort_insert(x, s, qf) == s.insert(j, x),
    decreases s.len(),
{
    if s.len() == 0 {
        assert(chunk_sort_insert(x, s, qf) =~= s.insert(0, x));
    } else if j == 0 {
        assert(chunk_sort_insert(x, s, qf) =~= s.insert(0, x));
    } else {
        lemma_chunk_insert_at(x, s.drop_first(), qf, j - 1);
        assert(seq![s[0]] + s.drop_first().insert(j - 1, x) =~= s.insert(j, x));
    }
}

/// Inserting keeps the resolved order.
proof fn lemma_chunk_insert_ordered(x: ChunkView, s: Seq<ChunkView>, qf: Seq<u8>)
    requires
        chunk_ordered(s, qf),
    ensures
        chunk_ordered(chunk_sort_insert(x, s, qf), qf),
        chunk_sort_insert(x, s, qf).len() == s.len() + 1,
    decreases s.len(),
{
    if s.len() == 0 {
    } else if chunk_keeps_before(s[0], x, qf) {
        assert(chunk_ordered(s.drop_first(), qf));
        lemma_chunk_insert_ordered(x, s.drop_first(), qf);
        let t = chunk_sort_insert(x, s.drop_first(), qf);
        assert forall|m: int| 0 <= m < t.len() implies chunk_keeps_before(
            s[0],
            #[trigger] t[m],
            qf,
        ) by {
            lemma_chunk_insert_members(x, s.drop_first(), qf, m);
            if t[m] == x {
            } else {
                let k = choose|k: int|
                    0 <= k < s.drop_first().len() && #[trigger] s.drop_first()[k] == t[m];
                assert(chunk_keeps_before(s[0], s[k + 1], qf));
            }
        }
        let u = seq![s[0]] + t;
        assert forall|i: int, j2: int|
            0 <= i < j2 < u.len() implies chunk_keeps_before(
            #[trigger] u[i],
            #[trigger] u[j2],
            qf,
        ) by {
            if i == 0 {
                assert(u[j2] == t[j2 - 1]);
            } else {
                assert(u[i] == t[i - 1] && u[j2] == t[j2 - 1]);
            }
        }
    } else {
        lemma_chunk_keeps_total(s[0], x, qf);
        assert forall|m: int| 0 <= m < s.len() implies chunk_keeps_before(
            x,
            #[trigger] s[m],
            qf,
        ) by {
            if m > 0 {
                lemma_chunk_keeps_trans(x, s[0], s[m], qf);
            }
        }
        let u = seq![x] + s;
        assert forall|i: int, j2: int|
            0 <= i < j2 < u.len() implies chunk_keeps_before(
            #[trigger] u[i],
            #[trigger] u[j2],
            qf,
        ) by {
            if i == 0 {
                assert(u[j2] == s[j2 - 1]);
            } else {
                assert(u[i] == s[i - 1] && u[j2] == s[j2 - 1]);
            }
        }
    }
}

/// Every element of an insertion is the inserted chunk or one of the old ones.
proof fn lemma_chunk_insert_members(x: ChunkView, s: Seq<ChunkView>, qf: Seq<u8>, m: int)
    requires
        0 <= m < chunk_sort_insert(x, s, qf).len(),
    ensures
        chunk_sort_insert(x, s, qf)[m] == x || exists|k: int|
            0 <= k < s.len() && #[trigger] s[k] == chunk_sort_insert(x, s, qf)[m],
    decreases s.len(),
{
    if s.len() == 0 {
    } else if chunk_keeps_before(s[0], x, qf) {
        if m > 0 {
            lemma_chunk_insert_members(x, s.drop_first(), qf, m - 1);
            let t = chunk_sort_insert(x, s.drop_first(), qf);
            if t[m - 1] != x {
                let k = choose|k: int|
                    0 <= k < s.drop_first().len() && #[trigger] s.drop_first()[k] == t[m - 1];
                assert(s[k + 1] == chunk_sort_insert(x, s, qf)[m]);
            }
        } else {
            assert(s[0] == chunk_sort_insert(x, s, qf)[0]);
        }
    } else {
        if m > 0 {
            assert(s[m - 1] == chunk_sort_insert(x, s, qf)[m]);
        }
    }
}

/// The sorted sequence is ordered and has the input's length.
pub proof fn lemma_chunk_sort_ordered(s: Seq<ChunkView>, qf: Seq<u8>)
    ensures
        chunk_ordered(chunk_sort(s, qf), qf),
        chunk_sort(s, qf).len() == s.len(),
    decreases s.len(),
{
    if s.len() > 0 {
        lemma_chunk_sort_ordered(s.drop_last(), qf);
        lemma_chunk_insert_ordered(s.last(), chunk_sort(s.drop_last(), qf), qf);
    }
}

/// In the executor's output a chunk whose title contains the query text
/// comes strictly before every chunk that matched only in its body or
/// section, whatever the titles' alphabetical order.
pub proof fn lemma_title_hits_first(
    chunks: Seq<ChunkView>,
    cs: Seq<CountyView>,
    f: FilterView,
    qf: Seq<u8>,
    fetch: int,
    i: int,
    j: int,
)
    requires
        0 <= fetch,
        0 <= i < j < executed(chunks, cs, f, qf, fetch).len(),
        title_hit(executed(chunks, cs, f, qf, fetch)[j], qf),
    ensures
        title_hit(executed(chunks, cs, f, qf, fetch)[i], qf),
{
    let sorted = chunk_sort(matching(chunks, cs, f, qf), qf);
    lemma_chunk_sort_ordered(matching(chunks, cs, f, qf), qf);
    let out = executed(chunks, cs, f, qf, fetch);
    if fetch <= sorted.len() {
        assert(out == sorted.take(fetch));
        assert(out[i] == sorted[i] && out[j] == sorted[j]);
    } else {
        assert(out == sorted);
    }
    assert(chunk_keeps_before(sorted[i], sorted[j], qf));
}

/// Whether the chunk passes the resolved predicate: the query text occurs
/// in its title, body or section, and the filters accept it.
fn chunk_passes_exec(
    c: &ProtocolChunk,
    counties: &Vec<County>,
    f: &SearchFilter,
    qf: &Vec<u8>,
) -> (r: bool)
    ensures
        r == chunk_passes(f@, c@, views_of(counties@), qf@),
{
    let title_f = ascii_fold(c.protocol_title.as_str().as_bytes());
    let mut matched = contains_bytes(title_f.as_slice(), qf.as_slice());
    if !matched {
        let content_f = ascii_fold(c.content.as_str().as_bytes());
        matched = contains_bytes(content_f.as_slice(), qf.as_slice());
    }
    if !matched {
        match &c.section {
            Some(sec) => {
                let sec_f = ascii_fold(sec.as_str().as_bytes());
                matched = contains_bytes(sec_f.as_slice(), qf.as_slice());
            },
            None => {},
        }
    }
    if !matched {
        return false;
    }
    match f {
        SearchFilter::ByStateAndCounty { state, county_id } => {
            if c.county_id != *county_id {
                return false;
            }
            match find_county(counties, c.county_id) {
                Some(county) => str_eq(county.state.as_str(), state.as_str()),
                None => false,
            }
        },
        SearchFilter::ByState { state } => {
            match find_county(counties, c.county_id) {
                Some(county) => str_eq(county.state.as_str(), state.as_str()),
                None => false,
            }
        },
        SearchFilter::ByCounty { county_id } => c.county_id == *county_id,
        SearchFilter::All => true,
    }
}

/// Whether `a` keeps before `b` in the resolved query's order.
fn chunk_keeps_before_exec(a: &ProtocolChunk, b: &ProtocolChunk, qf: &Vec<u8>) -> (r: bool)
    ensures
        r == chunk_keeps_before(a@, b@, qf@),
{
    let a_title_f = ascii_fold(a.protocol_title.as_str().as_bytes());
    let b_title_f = ascii_fold(b.protocol_title.as_str().as_bytes());
    let a_bucket: u8 = if contains_bytes(a_title_f.as_slice(), qf.as_slice()) {
        0
    } else {
        1
    };
    let b_bucket: u8 = if contains_bytes(b_title_f.as_slice(), qf.as_slice()) {
        0
    } else {
        1
    };
    a_bucket < b_bucket || (a_bucket == b_bucket && lex_leq_bytes(
        a.protocol_title.as_str().as_bytes(),
        b.protocol_title.as_str().as_bytes(),
    ))
}

/// Inserts a chunk after every already placed chunk that keeps before it.
fn chunk_insert(v: &mut Vec<ProtocolChunk>, x: ProtocolChunk, qf: &Vec<u8>)
    ensures
        views_of(final(v)@) == chunk_sort_insert(x@, views_of(old(v)@), qf@),
{
    let ghost sv = views_of(v@);
    let mut j: usize = 0;
    while j < v.len() && chunk_keeps_before_exec(&v[j], &x, qf)
        invariant
            j <= v@.len(),
            sv == views_of(v@),
            forall|k: int| 0 <= k < j ==> chunk_keeps_before(#[trigger] sv[k], x@, qf@),
        decreases v@.len() - j,
    {
        j += 1;
    }
    proof {
        lemma_chunk_insert_at(x@, sv, qf@, j as int);
    }
    v.insert(j, x);
    proof {
        assert(views_of(v@) =~= sv.insert(j as int, x@));
    }
}

/// Runs the resolved query over the corpus: keeps the chunks the predicate
/// accepts, orders them with title hits first and titles ascending within
/// each tier (ties keeping corpus order), and returns at most `fetch` of
/// them.  An empty result is an empty sequence, never an error.
pub fn execute_search(
    chunks: Vec<ProtocolChunk>,
    counties: &Vec<County>,
    f: &SearchFilter,
    query: &str,
    fetch: usize,
) -> (r: Vec<ProtocolChunk>)
    ensures
        views_of(r@) == executed(
            views_of(chunks@),
            views_of(counties@),
            f@,
            folded(query@),
            fetch as int,
        ),
        r@.len() <= fetch,
{
    let ghost orig = views_of(chunks@);
    let ghost cs = views_of(counties@);
    let qf = ascii_fold(query.as_bytes());
    let ghost pred = |c: ChunkView| chunk_passes(f@, c, cs, qf@);

    let total = chunks.len();
    let mut rest = chunks;
    let mut kept: Vec<ProtocolChunk> = Vec::new();
    let ghost mut done: int = 0;
    proof {
        assert(orig.take(0).filter(pred) =~= Seq::<ChunkView>::empty());
    }
    while rest.len() > 0
        invariant
            0 <= done,
            done + rest@.len() == orig.len(),
            orig.len() == total as int,
            views_of(rest@) == orig.skip(done),
            views_of(kept@) == orig.take(done).filter(pred),
            pred == (|c: ChunkView| chunk_passes(f@, c, cs, qf@)),
            cs == views_of(counties@),
            qf@ == folded(query@),
        decreases rest@.len(),
    {
        let ghost pre = rest@;
        proof {
            assert(views_of(pre)[0] == orig.skip(done)[0]);
        }
        let c = rest.remove(0);
        proof {
            pre.remove_ensures(0);
            assert(c@ == orig[done]);
            assert forall|i: int| 0 <= i < rest@.len() implies views_of(rest@)[i] == orig.skip(
                done + 1,
            )[i] by {
                assert(rest@[i] == pre[i + 1]);
                assert(views_of(pre)[i + 1] == orig.skip(done)[i + 1]);
            }
            assert(views_of(rest@) =~= orig.skip(done + 1));
            assert(orig.take(done + 1) =~= orig.take(done).push(orig[done]));
            orig.take(done).lemma_filter_push(orig[done], pred);
        }
        if chunk_passes_exec(&c, counties, f, &qf) {
            kept.push(c);
            proof {
                assert(views_of(kept@) =~= orig.take(done).filter(pred).push(orig[done]));
            }
        }
        proof {
            done = done + 1;
        }
    }
    proof {
        assert(orig.take(orig.len() as int) =~= orig);
        assert(views_of(kept@) == matching(orig, cs, f@, qf@));
    }
    let ghost kv = views_of(kept@);
    let kept_total = kept.len();
    let mut rest2 = kept;
    let mut out: Vec<ProtocolChunk> = Vec::new();
    let ghost mut placed: int = 0;
    proof {
        assert(chunk_sort(kv.take(0), qf@) =~= Seq::<ChunkView>::empty());
    }
    while rest2.len() > 0
        invariant
            0 <= placed,
            placed + rest2@.len() == kv.len(),
            kv.len() == kept_total as int,
            views_of(rest2@) == kv.skip(placed),
            views_of(out@) == chunk_sort(kv.take(placed), qf@),
            qf@ == folded(query@),
        decreases rest2@.len(),
    {
        let ghost pre = rest2@;
        proof {
            assert(views_of(pre)[0] == kv.skip(placed)[0]);
        }
        let c = rest2.remove(0);
        proof {
            pre.remove_ensures(0);
            assert(c@ == kv[placed]);
            assert forall|i: int| 0 <= i < rest2@.len() implies views_of(rest2@)[i] == kv.skip(
                placed + 1,
            )[i] by {
                assert(rest2@[i] == pre[i + 1]);
                assert(views_of(pre)[i + 1] == kv.skip(placed)[i + 1]);
            }
            assert(views_of(rest2@) =~= kv.skip(placed + 1));
            assert(kv.take(placed + 1).drop_last() =~= kv.take(placed));
            assert(kv.take(placed + 1).last() == kv[placed]);
        }
        chunk_insert(&mut out, c, &qf);
        proof {
            placed = placed + 1;
        }
    }
    proof {
        assert(kv.take(kv.len() as int) =~= kv);
    }
    if out.len() > fetch {
        out.truncate(fetch);
        proof {
            assert(views_of(out@) =~= chunk_sort(kv, qf@).take(fetch as int));
        }
    }
    out
}

} // verus!
