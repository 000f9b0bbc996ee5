//! The result enricher: joins each matched chunk with its owning county's
//! display data.
//!
//! Enrichment is best effort: when no county record matches a chunk's
//! county id, that one result gets empty-string name and state and the
//! request goes on; other results are unaffected.  The input order is
//! preserved, and each result is stamped with its match rank (its position
//! in the executor's output).

use vstd::prelude::*;

use crate::models::{
    ChunkView, County, CountyView, ProtocolChunk, ProtocolSearchResult, RelevanceScore, ResultView,
    ScoreView, county_lookup, find_county, views_of,
};

verus! {

/// One chunk joined with its owning county's data (empty strings when the
/// county is missing), carrying rank `i` and a placeholder score of 1.
pub open spec fn enriched_one(c: ChunkView, co: Option<CountyView>, i: int) -> ResultView {
    ResultView {
        id: c.id,
        county_id: c.county_id,
        county_name: match co {
            Some(cv) => cv.name,
            None => Seq::empty(),
        },
        state: match co {
            Some(cv) => cv.state,
            None => Seq::empty(),
        },
        protocol_number: c.protocol_number,
        protocol_title: c.protocol_title,
        section: c.section,
        content: c.content,
        source_pdf_url: c.source_pdf_url,
        protocol_year: c.protocol_year,
        last_verified_at: c.last_verified_at,
        relevance_score: ScoreView { num: 1, den: 1 },
        match_rank: i,
    }
}

/// The first `limit` chunks, each enriched against the county list, in
/// their input order.
pub open spec fn enriched(chunks: Seq<ChunkView>, cs: Seq<CountyView>, limit: int) -> Seq<
    ResultView,
> {
    let n = if limit <= chunks.len() {
        limit
    } else {
        chunks.len() as int
    };
    Seq::new(n as nat, |i: int| enriched_one(chunks[i], county_lookup(cs, chunks[i].county_id), i))
}

/// Joins one chunk with its county lookup's outcome: a missing county
/// degrades to empty-string name and state, never to a failure.
pub fn enrich_one(chunk: ProtocolChunk, county: Option<&County>, rank: usize) -> (r:
    ProtocolSearchResult)
    ensures
        r@ == enriched_one(
            chunk@,
            match county {
                Some(c) => Some(c@),
                None => None,
            },
            rank as int,
        ),
{
    let (county_name, state) = match county {
        Some(c) => (c.name.clone(), c.state.clone()),
        None => (String::new(), String::new()),
    };
    ProtocolSearchResult {
        id: chunk.id,
        county_id: chunk.county_id,
        county_name,
        state,
        protocol_number: chunk.protocol_number,
        protocol_title: chunk.protocol_title,
        section: chunk.section,
        content: chunk.content,
        source_pdf_url: chunk.source_pdf_url,
        protocol_year: chunk.protocol_year,
        last_verified_at: chunk.last_verified_at,
        relevance_score: RelevanceScore { num: 1, den: 1 },
        match_rank: rank,
    }
}

/// Enriches the first `limit` chunks in order, each against the county
/// list, tolerating missing counties per result.
pub fn enrich_results(chunks: Vec<ProtocolChunk>, counties: &Vec<County>, limit: usize) -> (r: Vec<
    ProtocolSearchResult,
>)
    ensures
        views_of(r@) == enriched(views_of(chunks@), views_of(counties@), limit as int),
        r@.len() <= limit,
{
    let ghost orig = views_of(chunks@);
    let ghost cs = views_of(counties@);
    let total = chunks.len();
    let mut rest = chunks;
    let mut out: Vec<ProtocolSearchResult> = Vec::new();
    let mut i: usize = 0;
    while i < limit && rest.len() > 0
        invariant
            i as int <= orig.len(),
            i <= limit,
            i + rest@.len() == orig.len(),
            orig.len() == total as int,
            views_of(rest@) == orig.skip(i as int),
            cs == views_of(counties@),
            views_of(out@) == Seq::new(
                i as nat,
                |k: int| enriched_one(orig[k], county_lookup(cs, orig[k].county_id), k),
            ),
        decreases orig.len() - i,
    {
        let ghost pre = rest@;
        proof {
            assert(views_of(pre)[0] == orig.skip(i as int)[0]);
        }
        let c = rest.remove(0);
        proof {
            pre.remove_ensures(0);
            assert(c@ == orig[i as int]);
            assert forall|k: int| 0 <= k < rest@.len() implies views_of(rest@)[k] == orig.skip(
                i as int + 1,
            )[k] by {
                assert(rest@[k] == pre[k + 1]);
                assert(views_of(pre)[k + 1] == orig.skip(i as int)[k + 1]);
            }
            assert(views_of(rest@) =~= orig.skip(i as int + 1));
        }
        let county = find_county(counties, c.county_id);
        let enriched_result = enrich_one(c, county, i);
        proof {
            assert(enriched_result@ == enriched_one(
                orig[i as int],
                county_lookup(cs, orig[i as int].county_id),
                i as int,
            ));
        }
        let ghost pre_out = out@;
        out.push(enriched_result);
        proof {
            let target = Seq::new(
                i as nat + 1,
                |k: int| enriched_one(orig[k], county_lookup(cs, orig[k].county_id), k),
            );
            assert(views_of(pre_out).len() == i as int);
            assert(pre_out.len() == i as int);
            assert(out@ == pre_out.push(enriched_result));
            assert forall|k: int| 0 <= k < i as int + 1 implies views_of(out@)[k] == target[k] by {
                if k < i as int {
                    assert(out@[k] == pre_out[k]);
                    assert(views_of(pre_out)[k] == target[k]);
                } else {
                    assert(out@[k] == enriched_result);
                }
            }
            assert(views_of(out@) =~= target);
        }
        i += 1;
    }
    proof {
        assert(views_of(out@) =~= enriched(orig, cs, limit as int));
    }
    out
}

} // verus!
