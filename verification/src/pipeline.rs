//! The search-and-synthesize pipeline: quota-gated elsewhere, it resolves
//! the filters, runs the resolved query with a two-fold over-fetch, enriches
//! the first `effective limit` matches, scores and stably re-sorts them,
//! and prepares the completion request; the response is assembled from the
//! results and the completion call's outcome.
//!
//! The over-fetch exists solely to hand the scorer more candidates than a
//! naive limit-only fetch would; the response still returns at most the
//! effective limit of results.

use vstd::prelude::*;

use crate::effective_limit;
use crate::effective_limit_spec;
use crate::enrich::{enrich_results, enriched};
use crate::filter::{FilterView, executed, filter_view_of, folded, resolve_filter};
use crate::models::{
    ChunkView, County, CountyView, ProtocolChunk, ProtocolSearchResult, ResultView,
    SearchQuery, SemanticSearchResponse, views_of,
};
use crate::score::{lemma_sort_ranked_ordered, query_keywords, rank_results, ranked, scored_all};
use crate::synth::{ChatRequest, LlmError, build_chat_request, context_of, resolve_answer,
    system_prompt_text, user_prompt_of};

verus! {

/// Everything the pipeline computes from a corpus and a request: the
/// matches of the resolved, ordered query, truncated to twice the
/// effective limit, the first `limit` of them enriched, then scored and
/// stably re-sorted.
pub open spec fn pipeline_results(
    chunks: Seq<ChunkView>,
    cs: Seq<CountyView>,
    f: FilterView,
    q: Seq<char>,
    limit: int,
) -> Seq<ResultView> {
    ranked(enriched(executed(chunks, cs, f, folded(q), 2 * limit), cs, limit), q)
}

/// Runs the search phase of the pipeline over an in-memory corpus and
/// returns the ranked results together with the completion request to
/// send, present exactly when there are results.
pub fn run_search(chunks: Vec<ProtocolChunk>, counties: &Vec<County>, query: &SearchQuery) -> (r: (
    Vec<ProtocolSearchResult>,
    Option<ChatRequest>,
))
    ensures
        views_of(r.0@) == pipeline_results(
            views_of(chunks@),
            views_of(counties@),
            filter_view_of(query.state, query.county_id),
            query.query@,
            effective_limit_spec(query.limit),
        ),
        r.0@.len() <= effective_limit_spec(query.limit),
        r.1 is Some <==> r.0@.len() > 0,
        (match r.1 {
            Some(req) => {
                &&& req.model@ == "gpt-4o-mini"@
                &&& req.max_tokens == 500
                &&& req.temperature_tenths == 3
                &&& req.messages@.len() == 2
                &&& req.messages@[0].role@ == "system"@
                &&& req.messages@[0].content@ == system_prompt_text()
                &&& req.messages@[1].role@ == "user"@
                &&& req.messages@[1].content@ == user_prompt_of(
                    query.query@,
                    context_of(views_of(r.0@)),
                )
            },
            None => true,
        }),
{
    let limit = effective_limit(query.limit);
    let fetch = limit * 2;
    let state: Option<String> = match &query.state {
        Some(s) => Some(s.clone()),
        None => None,
    };
    let f = resolve_filter(state, query.county_id);
    proof {
        assert(f@ == filter_view_of(query.state, query.county_id));
    }
    let over_fetched = crate::filter::execute_search(
        chunks,
        counties,
        &f,
        query.query.as_str(),
        fetch,
    );
    let mut results = enrich_results(over_fetched, counties, limit);
    rank_results(&mut results, query.query.as_str());
    proof {
        lemma_sort_ranked_ordered(
            scored_all(
                enriched(
                    executed(
                        views_of(chunks@),
                        views_of(counties@),
                        filter_view_of(query.state, query.county_id),
                        folded(query.query@),
                        2 * effective_limit_spec(query.limit),
                    ),
                    views_of(counties@),
                    effective_limit_spec(query.limit),
                ),
                query_keywords(query.query@),
            ),
        );
    }
    let request = build_chat_request(query.query.as_str(), &results);
    (results, request)
}

/// Assembles the response: the results as computed, the answer only from a
/// successful completion call (any failure, and a skipped call, leaves it
/// absent), and a total count equal to the number of returned results.
/// Nothing of a completion failure reaches the caller, and the results are
/// returned regardless.
pub fn assemble_response(
    results: Vec<ProtocolSearchResult>,
    outcome: Option<Result<String, LlmError>>,
) -> (r: SemanticSearchResponse)
    requires
        results@.len() <= i64::MAX,
    ensures
        r.results == results,
        r.total_count as int == results@.len(),
        r.answer == (match outcome {
            Some(Ok(text)) => Some(text),
            _ => None::<String>,
        }),
{
    let total = results.len() as i64;
    let answer = resolve_answer(outcome);
    SemanticSearchResponse { results, answer, total_count: total }
}

/// For every valid requested limit in [1, 100], the pipeline's result
/// count stays within the request: the effective limit honours such a
/// request exactly, and `run_search` bounds its results by it.
pub proof fn lemma_results_bounded_by_valid_limit(limit: i32, results_len: int)
    requires
        1 <= limit as int <= 100,
        results_len <= effective_limit_spec(Some(limit)),
    ensures
        results_len <= limit as int,
{
}

} // verus!
