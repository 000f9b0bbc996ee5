//! Verified core of a protocol lookup service.
//!
//! The library turns a free-text query plus optional state/county filters
//! into a ranked, enriched result set, optionally prepares a request for an
//! external text-completion service, and enforces a per-identity daily
//! query quota.  All branching logic, ordering guarantees and degradation
//! policies are stated as contracts and proved; the surrounding process
//! (HTTP handling, the relational store, the completion call itself) lives
//! outside the library and exchanges plain values with it.

pub mod enrich;
pub mod filter;
pub mod models;
pub mod pipeline;
pub mod synth;
pub mod quota;
pub mod score;
pub mod text;
pub mod users;

use vstd::prelude::*;

verus! {

/// The closed range every effective result limit is clamped into.
pub open spec fn limit_floor() -> int {
    1
}

/// Upper end of the limit clamp.
pub open spec fn limit_ceiling() -> int {
    100
}

/// Limit used when the caller omits the limit or supplies a non-positive one.
pub open spec fn default_limit() -> int {
    20
}

/// Effective result limit: non-positive or absent requests default to 20,
/// anything above 100 is clamped to 100.
pub open spec fn effective_limit_spec(requested: Option<i32>) -> int {
    match requested {
        None => default_limit(),
        Some(v) => if v <= 0 {
            default_limit()
        } else if v > limit_ceiling() {
            limit_ceiling()
        } else {
            v as int
        },
    }
}

/// Clamps a requested result limit into the closed range [1, 100],
/// defaulting to 20 when the request is absent or non-positive.
pub fn effective_limit(requested: Option<i32>) -> (r: usize)
    ensures
        r as int == effective_limit_spec(requested),
        limit_floor() <= r as int <= limit_ceiling(),
{
    match requested {
        None => 20,
        Some(v) => if v <= 0 {
            20
        } else if v > 100 {
            100
        } else {
            v as usize
        },
    }
}

/// Requested limits of 0, -5 or absent all give the default of 20, and
/// oversized requests clamp to 100; every valid request in [1, 100] is
/// honoured exactly.
pub proof fn lemma_effective_limit_clamp(requested: Option<i32>)
    ensures
        requested == Some(0i32) ==> effective_limit_spec(requested) == default_limit(),
        requested == Some(-5i32) ==> effective_limit_spec(requested) == default_limit(),
        requested is None ==> effective_limit_spec(requested) == default_limit(),
        requested == Some(500i32) ==> effective_limit_spec(requested) == limit_ceiling(),
        forall|v: i32|
            requested == Some(v) && limit_floor() <= v as int <= limit_ceiling()
                ==> effective_limit_spec(requested) == v as int,
{
}

} // verus!
