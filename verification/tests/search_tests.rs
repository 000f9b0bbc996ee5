use protocol_guide::enrich::{enrich_one, enrich_results};
use protocol_guide::filter::{execute_search, resolve_filter, SearchFilter};
use protocol_guide::models::{County, ProtocolChunk, ProtocolSearchResult, RelevanceScore};
use protocol_guide::pipeline::{assemble_response, run_search};
use protocol_guide::score::rank_results;
use protocol_guide::synth::{build_chat_request, build_context, resolve_answer, LlmError};
use protocol_guide::models::SearchQuery;
use protocol_guide::effective_limit;

fn chunk(id: i32, county_id: i32, number: &str, title: &str, content: &str) -> ProtocolChunk {
    ProtocolChunk {
        id,
        county_id,
        protocol_number: number.to_string(),
        protocol_title: title.to_string(),
        section: None,
        content: content.to_string(),
        source_pdf_url: None,
        protocol_effective_date: None,
        last_verified_at: None,
        protocol_year: Some(2023),
        created_at: 0,
    }
}

fn county(id: i32, name: &str, state: &str) -> County {
    County {
        id,
        name: name.to_string(),
        state: state.to_string(),
        uses_state_protocols: false,
        protocol_version: None,
        created_at: 0,
    }
}

fn result(id: i32, title: &str, content: &str) -> ProtocolSearchResult {
    ProtocolSearchResult {
        id,
        county_id: 1,
        county_name: "Kent".to_string(),
        state: "WA".to_string(),
        protocol_number: format!("P-{id}"),
        protocol_title: title.to_string(),
        section: None,
        content: content.to_string(),
        source_pdf_url: None,
        protocol_year: None,
        last_verified_at: None,
        relevance_score: RelevanceScore { num: 1, den: 1 },
        match_rank: 0,
    }
}

fn score_of(r: &ProtocolSearchResult) -> f64 {
    if r.relevance_score.den == 0 {
        0.0
    } else {
        r.relevance_score.num as f64 / r.relevance_score.den as f64
    }
}

#[test]
fn effective_limit_defaults_and_clamps() {
    assert_eq!(effective_limit(Some(0)), 20);
    assert_eq!(effective_limit(Some(-5)), 20);
    assert_eq!(effective_limit(None), 20);
    assert_eq!(effective_limit(Some(500)), 100);
    assert_eq!(effective_limit(Some(1)), 1);
    assert_eq!(effective_limit(Some(100)), 100);
    assert_eq!(effective_limit(Some(37)), 37);
}

#[test]
fn resolve_filter_picks_the_four_shapes() {
    assert!(matches!(
        resolve_filter(Some("WA".to_string()), Some(3)),
        SearchFilter::ByStateAndCounty { .. }
    ));
    assert!(matches!(
        resolve_filter(Some("WA".to_string()), None),
        SearchFilter::ByState { .. }
    ));
    assert!(matches!(resolve_filter(None, Some(3)), SearchFilter::ByCounty { .. }));
    assert!(matches!(resolve_filter(None, None), SearchFilter::All));
}

#[test]
fn title_hit_ranks_before_body_only_match() {
    // The title hit's title sorts alphabetically after the body-only
    // match's title, yet it must come first.
    let chunks = vec![
        chunk(1, 1, "A-1", "Airway basics", "steps for cardiac arrest response"),
        chunk(2, 1, "Z-9", "Zebra cardiac protocol", "unrelated body"),
    ];
    let counties = vec![county(1, "Kent", "WA")];
    let f = resolve_filter(None, None);
    let out = execute_search(chunks, &counties, &f, "cardiac", 10);
    assert_eq!(out.len(), 2);
    assert_eq!(out[0].id, 2);
    assert_eq!(out[1].id, 1);
}

#[test]
fn executor_orders_titles_ascending_within_tier() {
    let chunks = vec![
        chunk(1, 1, "B", "Burns", "cardiac notes"),
        chunk(2, 1, "A", "Allergy", "cardiac notes"),
    ];
    let counties = vec![county(1, "Kent", "WA")];
    let f = resolve_filter(None, None);
    let out = execute_search(chunks, &counties, &f, "cardiac", 10);
    assert_eq!(out.len(), 2);
    assert_eq!(out[0].protocol_title, "Allergy");
    assert_eq!(out[1].protocol_title, "Burns");
}

#[test]
fn executor_matches_case_insensitively_and_in_section() {
    let mut with_section = chunk(1, 1, "S-1", "Misc", "nothing here");
    with_section.section = Some("Cardiac care".to_string());
    let chunks = vec![with_section, chunk(2, 1, "S-2", "Misc two", "plain text")];
    let counties = vec![county(1, "Kent", "WA")];
    let f = resolve_filter(None, None);
    let out = execute_search(chunks, &counties, &f, "CARDIAC", 10);
    assert_eq!(out.len(), 1);
    assert_eq!(out[0].id, 1);
}

#[test]
fn query_text_is_matched_literally_not_as_a_pattern() {
    // Wildcard-significant characters in the query have no special
    // meaning: containment is literal.
    let chunks = vec![
        chunk(1, 1, "A", "Saline 100% solution", "x"),
        chunk(2, 1, "B", "Saline 100x solution", "x"),
    ];
    let counties = vec![county(1, "Kent", "WA")];
    let f = resolve_filter(None, None);
    let out = execute_search(chunks, &counties, &f, "100%", 10);
    assert_eq!(out.len(), 1);
    assert_eq!(out[0].id, 1);
}

#[test]
fn executor_applies_state_and_county_filters() {
    let chunks = vec![
        chunk(1, 1, "A", "cardiac one", "x"),
        chunk(2, 2, "B", "cardiac two", "x"),
        chunk(3, 9, "C", "cardiac three", "x"),
    ];
    let counties = vec![county(1, "Kent", "WA"), county(2, "Lane", "OR")];

    let by_state = resolve_filter(Some("WA".to_string()), None);
    let out = execute_search(chunks.clone(), &counties, &by_state, "cardiac", 10);
    assert_eq!(out.len(), 1);
    assert_eq!(out[0].id, 1);

    let by_county = resolve_filter(None, Some(2));
    let out = execute_search(chunks.clone(), &counties, &by_county, "cardiac", 10);
    assert_eq!(out.len(), 1);
    assert_eq!(out[0].id, 2);

    let both = resolve_filter(Some("OR".to_string()), Some(2));
    let out = execute_search(chunks.clone(), &counties, &both, "cardiac", 10);
    assert_eq!(out.len(), 1);
    assert_eq!(out[0].id, 2);

    // A state filter excludes chunks whose county is unknown (id 9), and a
    // mismatched pair matches nothing.
    let mismatched = resolve_filter(Some("WA".to_string()), Some(2));
    let out = execute_search(chunks, &counties, &mismatched, "cardiac", 10);
    assert_eq!(out.len(), 0);
}

#[test]
fn executor_truncates_to_fetch_count_and_tolerates_empty_corpus() {
    let counties = vec![county(1, "Kent", "WA")];
    let f = resolve_filter(None, None);
    let mut chunks = Vec::new();
    for i in 0..7 {
        chunks.push(chunk(i, 1, "N", &format!("cardiac {i}"), "x"));
    }
    let out = execute_search(chunks, &counties, &f, "cardiac", 4);
    assert_eq!(out.len(), 4);

    let none = execute_search(Vec::new(), &counties, &f, "cardiac", 4);
    assert!(none.is_empty());
}

#[test]
fn enricher_substitutes_empty_strings_on_missing_county() {
    let chunks = vec![
        chunk(1, 1, "A", "one", "x"),
        chunk(2, 42, "B", "two", "x"),
        chunk(3, 1, "C", "three", "x"),
    ];
    let counties = vec![county(1, "Kent", "WA")];
    let out = enrich_results(chunks, &counties, 10);
    assert_eq!(out.len(), 3);
    // Order is preserved and ranks are the input positions.
    assert_eq!(out[0].id, 1);
    assert_eq!(out[1].id, 2);
    assert_eq!(out[2].id, 3);
    assert_eq!(out[0].match_rank, 0);
    assert_eq!(out[1].match_rank, 1);
    assert_eq!(out[2].match_rank, 2);
    // The miss degrades to empty strings; its neighbours are unaffected.
    assert_eq!(out[1].county_name, "");
    assert_eq!(out[1].state, "");
    assert_eq!(out[0].county_name, "Kent");
    assert_eq!(out[0].state, "WA");
    assert_eq!(out[2].county_name, "Kent");
}

#[test]
fn enricher_truncates_to_limit() {
    let chunks = vec![
        chunk(1, 1, "A", "one", "x"),
        chunk(2, 1, "B", "two", "x"),
        chunk(3, 1, "C", "three", "x"),
    ];
    let counties = vec![county(1, "Kent", "WA")];
    let out = enrich_results(chunks, &counties, 2);
    assert_eq!(out.len(), 2);
    assert_eq!(out[0].id, 1);
    assert_eq!(out[1].id, 2);

    let one = enrich_one(chunk(9, 5, "Z", "solo", "x"), None, 7);
    assert_eq!(one.county_name, "");
    assert_eq!(one.state, "");
    assert_eq!(one.match_rank, 7);
}

#[test]
fn scorer_computes_the_exact_formula() {
    // Two keywords; "cardiac" hits title and body (2 + 1), "arrest" hits
    // the body only (1): raw 4 over a denominator of 2 * 3 = 6.
    let mut results = vec![result(1, "Cardiac care", "cardiac arrest steps")];
    rank_results(&mut results, "cardiac arrest");
    assert_eq!(results[0].relevance_score.num, 4);
    assert_eq!(results[0].relevance_score.den, 6);

    // One keyword present in both title and body of the only result gives
    // exactly 1.0.
    let mut full = vec![result(2, "cardiac", "cardiac")];
    rank_results(&mut full, "cardiac");
    assert_eq!(full[0].relevance_score.num, 3);
    assert_eq!(full[0].relevance_score.den, 3);
    assert_eq!(score_of(&full[0]), 1.0);

    // Duplicate keywords count independently.
    let mut dup = vec![result(3, "cardiac", "no match body")];
    rank_results(&mut dup, "cardiac cardiac");
    assert_eq!(dup[0].relevance_score.num, 4);
    assert_eq!(dup[0].relevance_score.den, 6);
}

#[test]
fn scorer_sorts_descending_and_is_case_insensitive() {
    let mut results = vec![
        result(1, "unrelated", "nothing matches"),
        result(2, "CARDIAC overview", "CARDIAC body"),
        result(3, "other", "cardiac body only"),
    ];
    rank_results(&mut results, "cardiac");
    assert_eq!(results[0].id, 2);
    assert_eq!(results[1].id, 3);
    assert_eq!(results[2].id, 1);
    assert!(score_of(&results[0]) > score_of(&results[1]));
    assert!(score_of(&results[1]) > score_of(&results[2]));
    assert_eq!(score_of(&results[2]), 0.0);
}

#[test]
fn scorer_stable_sort_keeps_equal_scores_in_input_order() {
    // Both results score identically; their relative order must survive,
    // run after run.
    for _ in 0..3 {
        let mut results = vec![
            result(7, "cardiac seven", "x"),
            result(3, "cardiac three", "x"),
            result(5, "cardiac five", "x"),
        ];
        rank_results(&mut results, "cardiac");
        let ids: Vec<i32> = results.iter().map(|r| r.id).collect();
        assert_eq!(ids, vec![7, 3, 5]);
        assert_eq!(results[0].relevance_score.num, results[1].relevance_score.num);
    }
}

#[test]
fn scorer_gives_zero_scores_and_keeps_order_on_blank_query() {
    for query in ["", "   ", " \t\n "] {
        let mut results = vec![
            result(4, "b title", "b body"),
            result(1, "a title", "a body"),
            result(9, "c title", "c body"),
        ];
        rank_results(&mut results, query);
        let ids: Vec<i32> = results.iter().map(|r| r.id).collect();
        assert_eq!(ids, vec![4, 1, 9]);
        for r in &results {
            assert_eq!(r.relevance_score.num, 0);
            assert_eq!(score_of(r), 0.0);
        }
    }
}

#[test]
fn synthesizer_skips_empty_results() {
    assert!(build_chat_request("query", &Vec::new()).is_none());
}

#[test]
fn synthesizer_builds_the_fixed_request() {
    let results = vec![result(1, "Cardiac care", "body text")];
    let req = build_chat_request("how to treat cardiac arrest", &results).unwrap();
    assert_eq!(req.model, "gpt-4o-mini");
    assert_eq!(req.max_tokens, 500);
    assert_eq!(req.temperature_tenths, 3);
    assert_eq!(req.messages.len(), 2);
    assert_eq!(req.messages[0].role, "system");
    assert!(req.messages[0].content.contains("EMS protocol assistant"));
    assert!(req.messages[0].content.contains("Always cite the protocol number."));
    assert_eq!(req.messages[1].role, "user");
    assert!(req.messages[1].content.starts_with("Question: how to treat cardiac arrest"));
    assert!(req.messages[1].content.contains("Protocol: P-1 - Cardiac care"));
    assert!(req.messages[1].content.contains("Agency: Kent (WA)"));
    assert!(req.messages[1].content.ends_with("Provide a concise answer based on these protocols."));
}

#[test]
fn synthesizer_truncates_bodies_and_takes_five_results() {
    let long_body = "x".repeat(600);
    let mut results = Vec::new();
    for i in 0..6 {
        results.push(result(i, &format!("title {i}"), &long_body));
    }
    let ctx = build_context(&results);
    // Five blocks, joined by four separators.
    assert_eq!(ctx.matches("Protocol: ").count(), 5);
    assert_eq!(ctx.matches("\n---\n").count(), 4);
    // Each body is cut to its first 500 characters.
    assert!(!ctx.contains(&long_body));
    assert!(ctx.contains(&"x".repeat(500)));
}

#[test]
fn any_synthesis_failure_degrades_to_no_answer() {
    let failures = vec![
        Some(Err(LlmError::RequestError("timed out".to_string()))),
        Some(Err(LlmError::ApiError("status 500".to_string()))),
        Some(Err(LlmError::ApiError("No response from LLM".to_string()))),
        Some(Err(LlmError::MissingApiKey)),
        None,
    ];
    for outcome in failures {
        assert!(resolve_answer(outcome).is_none());
    }
    assert_eq!(resolve_answer(Some(Ok("use epinephrine".to_string()))), Some(
        "use epinephrine".to_string(),
    ));
}

#[test]
fn failed_synthesis_still_returns_full_results() {
    let results = vec![result(1, "Cardiac", "body"), result(2, "Other", "body")];
    let resp = assemble_response(
        results,
        Some(Err(LlmError::ApiError("malformed body".to_string()))),
    );
    assert_eq!(resp.results.len(), 2);
    assert_eq!(resp.results[0].id, 1);
    assert_eq!(resp.results[1].id, 2);
    assert!(resp.answer.is_none());
    assert_eq!(resp.total_count, 2);
}

#[test]
fn llm_error_messages() {
    assert_eq!(
        LlmError::RequestError("boom".to_string()).message(),
        "HTTP request failed: boom"
    );
    assert_eq!(LlmError::ApiError("bad".to_string()).message(), "API error: bad");
    assert_eq!(LlmError::MissingApiKey.message(), "Missing API key");
}

#[test]
fn pipeline_respects_every_valid_limit() {
    let counties = vec![county(1, "Kent", "WA")];
    for limit in [1i32, 2, 3, 5, 100] {
        let mut chunks = Vec::new();
        for i in 0..12 {
            chunks.push(chunk(i, 1, "N", &format!("cardiac {i}"), "x"));
        }
        let query = SearchQuery {
            query: "cardiac".to_string(),
            state: None,
            county_id: None,
            limit: Some(limit),
        };
        let (results, request) = run_search(chunks, &counties, &query);
        assert!(results.len() <= limit as usize);
        assert_eq!(results.len(), 12.min(limit as usize));
        assert!(request.is_some());
        let resp = assemble_response(results, Some(Ok("answer".to_string())));
        assert_eq!(resp.total_count as usize, resp.results.len());
        assert_eq!(resp.answer.as_deref(), Some("answer"));
    }
}

#[test]
fn pipeline_empty_match_yields_no_request_and_empty_response() {
    let counties = vec![county(1, "Kent", "WA")];
    let chunks = vec![chunk(1, 1, "A", "airway", "breathing")];
    let query = SearchQuery {
        query: "zzz-no-such-text".to_string(),
        state: None,
        county_id: None,
        limit: None,
    };
    let (results, request) = run_search(chunks, &counties, &query);
    assert!(results.is_empty());
    assert!(request.is_none());
    let resp = assemble_response(results, None);
    assert_eq!(resp.total_count, 0);
    assert!(resp.answer.is_none());
    assert!(resp.results.is_empty());
}

#[test]
fn pipeline_overfetch_feeds_the_scorer() {
    // With limit 2 the executor fetches four candidates; the scorer ranks
    // the enriched two, and the best of those two wins.
    let counties = vec![county(1, "Kent", "WA")];
    let chunks = vec![
        chunk(1, 1, "A", "Aaa cardiac", "x"),
        chunk(2, 1, "B", "Bbb cardiac", "cardiac cardiac body"),
        chunk(3, 1, "C", "Ccc cardiac", "x"),
    ];
    let query = SearchQuery {
        query: "cardiac".to_string(),
        state: None,
        county_id: None,
        limit: Some(2),
    };
    let (results, _) = run_search(chunks, &counties, &query);
    assert_eq!(results.len(), 2);
    // Chunk 2 matches in title and body, so it outranks chunk 1.
    assert_eq!(results[0].id, 2);
    assert_eq!(results[1].id, 1);
}
