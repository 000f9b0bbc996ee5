//! The answer synthesizer: builds the request for the external
//! text-completion service and folds the call's outcome into the response.
//!
//! With no results the stage is skipped and the answer is absent.
//! Otherwise the first five results become fixed-format context blocks
//! (bodies truncated to their first 500 characters, mid-word cuts and
//! all), joined and embedded in a two-part prompt with fixed decoding
//! parameters.  Any failure of the call — transport trouble, a
//! non-success status, a malformed or empty body — degrades to "no
//! answer" and never fails the request.

use vstd::prelude::*;
use vstd::string::{StrSliceExecFns, StringExecFns};

use crate::models::{ProtocolSearchResult, ResultView, views_of};

verus! {

/// Why a completion call yielded no answer.  The transport error's text is
/// carried as plain words; nothing of it reaches the caller.
#[derive(Debug)]
pub enum LlmError {
    /// The request could not be sent or the reply not read.
    RequestError(String),
    /// The service answered with a non-success status or an unusable body.
    ApiError(String),
    /// No key for the service was configured.
    MissingApiKey,
}

impl LlmError {
    /// A human-readable description, for the operator's log only.
    pub fn message(&self) -> (r: String)
        ensures
            r@ == (match self {
                LlmError::RequestError(e) => "HTTP request failed: "@ + e@,
                LlmError::ApiError(e) => "API error: "@ + e@,
                LlmError::MissingApiKey => "Missing API key"@,
            }),
    {
        match self {
            LlmError::RequestError(e) => {
                let mut m = String::from_str("HTTP request failed: ");
                m.append(e.as_str());
                m
            },
            LlmError::ApiError(e) => {
                let mut m = String::from_str("API error: ");
                m.append(e.as_str());
                m
            },
            LlmError::MissingApiKey => String::from_str("Missing API key"),
        }
    }
}

/// One chat message of the completion request.
pub struct ChatMessage {
    pub role: String,
    pub content: String,
}

/// A completion request with fixed decoding parameters.  The sampling
/// temperature is carried in tenths (3 stands for 0.3), keeping the
/// request exact.
pub struct ChatRequest {
    pub model: String,
    pub messages: Vec<ChatMessage>,
    pub max_tokens: u32,
    pub temperature_tenths: u32,
}

/// A body truncated to its first 500 characters; the cut ignores word
/// boundaries.
pub open spec fn truncated_content(c: Seq<char>) -> Seq<char> {
    if c.len() <= 500 {
        c
    } else {
        c.subrange(0, 500)
    }
}

/// The fixed-format context block built from one result.
pub open spec fn block_of(r: ResultView) -> Seq<char> {
    "Protocol: "@ + r.protocol_number + " - "@ + r.protocol_title + "\nAgency: "@ + r.county_name
        + " ("@ + r.state + ")\nContent: "@ + truncated_content(r.content) + "\n"@
}

/// The blocks of the given results, joined with the fixed separator.
pub open spec fn blocks_joined(rs: Seq<ResultView>) -> Seq<char>
    decreases rs.len(),
{
    if rs.len() == 0 {
        Seq::empty()
    } else if rs.len() == 1 {
        block_of(rs[0])
    } else {
        blocks_joined(rs.drop_last()) + "\n---\n"@ + block_of(rs.last())
    }
}

/// The context handed to the completion service: the blocks of the first
/// five results.
pub open spec fn context_of(rs: Seq<ResultView>) -> Seq<char> {
    blocks_joined(
        rs.take(
            if rs.len() <= 5 {
                rs.len() as int
            } else {
                5
            },
        ),
    )
}

/// The fixed system instruction.
pub open spec fn system_prompt_text() -> Seq<char> {
    "You are an EMS protocol assistant. Provide concise, actionable answers based on the provided protocol excerpts. \nFocus on:\n- Key steps and interventions\n- Medication dosages when mentioned\n- Critical decision points\nKeep responses brief and field-ready. Always cite the protocol number."@
}

/// The user instruction embedding the query and the context blocks.
pub open spec fn user_prompt_of(q: Seq<char>, ctx: Seq<char>) -> Seq<char> {
    "Question: "@ + q + "\n\nRelevant Protocols:\n"@ + ctx
        + "\n\nProvide a concise answer based on these protocols."@
}

/// Builds the context block of one result.
fn build_block(r: &ProtocolSearchResult) -> (b: String)
    ensures
        b@ == block_of(r@),
{
    let mut b = String::from_str("Protocol: ");
    b.append(r.protocol_number.as_str());
    b.append(" - ");
    b.append(r.protocol_title.as_str());
    b.append("\nAgency: ");
    b.append(r.county_name.as_str());
    b.append(" (");
    b.append(r.state.as_str());
    b.append(")\nContent: ");
    let content = r.content.as_str();
    let content_len = content.unicode_len();
    if content_len > 500 {
        b.append(content.substring_char(0, 500));
    } else {
        b.append(content);
    }
    b.append("\n");
    b
}

/// Builds the joined context of the first five results.
pub fn build_context(results: &Vec<ProtocolSearchResult>) -> (ctx: String)
    ensures
        ctx@ == context_of(views_of(results@)),
{
    let ghost rv = views_of(results@);
    let n: usize = if results.len() > 5 {
        5
    } else {
        results.len()
    };
    let ghost vs = rv.take(n as int);
    let mut ctx = String::new();
    let mut i: usize = 0;
    while i < n
        invariant
            i <= n,
            n <= results@.len(),
            rv == views_of(results@),
            vs == rv.take(n as int),
            ctx@ == blocks_joined(vs.take(i as int)),
        decreases n - i,
    {
        if i > 0 {
            ctx.append("\n---\n");
        }
        let block = build_block(&results[i]);
        ctx.append(block.as_str());
        proof {
            assert(vs.take(i as int + 1).drop_last() =~= vs.take(i as int));
            assert(vs.take(i as int + 1).last() == rv[i as int]);
        }
        i += 1;
    }
    proof {
        assert(vs.take(n as int) =~= vs);
        assert(ctx@ == context_of(rv));
    }
    ctx
}

/// Builds the completion request for a query and its results: absent when
/// there are no results (the synthesis stage is skipped), otherwise the
/// two-part prompt with the fixed model and decoding parameters.
pub fn build_chat_request(query: &str, results: &Vec<ProtocolSearchResult>) -> (r: Option<
    ChatRequest,
>)
    ensures
        results@.len() == 0 <==> r is None,
        match r {
            Some(req) => {
                &&& req.model@ == "gpt-4o-mini"@
                &&& req.max_tokens == 500
                &&& req.temperature_tenths == 3
                &&& req.messages@.len() == 2
                &&& req.messages@[0].role@ == "system"@
                &&& req.messages@[0].content@ == system_prompt_text()
                &&& req.messages@[1].role@ == "user"@
                &&& req.messages@[1].content@ == user_prompt_of(
                    query@,
                    context_of(views_of(results@)),
                )
            },
            None => true,
        },
{
    if results.len() == 0 {
        return None;
    }
    let context = build_context(results);
    let system_content = String::from_str(
        "You are an EMS protocol assistant. Provide concise, actionable answers based on the provided protocol excerpts. \nFocus on:\n- Key steps and interventions\n- Medication dosages when mentioned\n- Critical decision points\nKeep responses brief and field-ready. Always cite the protocol number.",
    );
    let mut user_content = String::from_str("Question: ");
    user_content.append(query);
    user_content.append("\n\nRelevant Protocols:\n");
    user_content.append(context.as_str());
    user_content.append("\n\nProvide a concise answer based on these protocols.");
    let messages: Vec<ChatMessage> = vec![
        ChatMessage { role: String::from_str("system"), content: system_content },
        ChatMessage { role: String::from_str("user"), content: user_content },
    ];
    Some(
        ChatRequest {
            model: String::from_str("gpt-4o-mini"),
            messages,
            max_tokens: 500,
            temperature_tenths: 3,
        },
    )
}

/// Folds the completion call's outcome into the response's answer: only a
/// successful call contributes text; every failure, and a skipped call,
/// degrades to an absent answer.
pub fn resolve_answer(outcome: Option<Result<String, LlmError>>) -> (r: Option<String>)
    ensures
        match outcome {
            Some(Ok(text)) => r == Some(text),
            _ => r is None,
        },
{
    match outcome {
        Some(Ok(text)) => Some(text),
        _ => None,
    }
}

} // verus!
