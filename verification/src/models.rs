//! Data model of the search pipeline: protocol chunks, owning counties,
//! enriched results and response shapes, together with their mathematical
//! views.
//!
//! Timestamps are carried as seconds since the Unix epoch; relevance
//! scores are exact rationals (numerator and denominator), never floats.

use vstd::prelude::*;

verus! {

/// An agency (county-level organisational unit) that owns protocol chunks.
#[derive(Clone)]
pub struct County {
    pub id: i32,
    pub name: String,
    pub state: String,
    pub uses_state_protocols: bool,
    pub protocol_version: Option<String>,
    pub created_at: i64,
}

/// Mathematical view of a `County`.
pub struct CountyView {
    pub id: int,
    pub name: Seq<char>,
    pub state: Seq<char>,
    pub uses_state_protocols: bool,
    pub protocol_version: Option<Seq<char>>,
    pub created_at: int,
}

impl View for County {
    type V = CountyView;

    open spec fn view(&self) -> CountyView {
        CountyView {
            id: self.id as int,
            name: self.name@,
            state: self.state@,
            uses_state_protocols: self.uses_state_protocols,
            protocol_version: match self.protocol_version {
                Some(v) => Some(v@),
                None => None,
            },
            created_at: self.created_at as int,
        }
    }
}

/// A county together with how many protocol chunks it owns.
pub struct CountyWithProtocolCount {
    pub id: i32,
    pub name: String,
    pub state: String,
    pub protocol_count: i64,
}

/// Payload for creating a county.
pub struct CreateCounty {
    pub name: String,
    pub state: String,
    pub uses_state_protocols: Option<bool>,
    pub protocol_version: Option<String>,
}

/// A state together with its agency and protocol counts.
pub struct StateWithCount {
    pub state: String,
    pub agency_count: i64,
    pub protocol_count: i64,
}

/// One titled fragment of procedural text belonging to a county.
#[derive(Clone)]
pub struct ProtocolChunk {
    pub id: i32,
    pub county_id: i32,
    pub protocol_number: String,
    pub protocol_title: String,
    pub section: Option<String>,
    pub content: String,
    pub source_pdf_url: Option<String>,
    pub protocol_effective_date: Option<String>,
    pub last_verified_at: Option<i64>,
    pub protocol_year: Option<i32>,
    pub created_at: i64,
}

/// Mathematical view of a `ProtocolChunk`.
pub struct ChunkView {
    pub id: int,
    pub county_id: int,
    pub protocol_number: Seq<char>,
    pub protocol_title: Seq<char>,
    pub section: Option<Seq<char>>,
    pub content: Seq<char>,
    pub source_pdf_url: Option<Seq<char>>,
    pub protocol_effective_date: Option<Seq<char>>,
    pub last_verified_at: Option<int>,
    pub protocol_year: Option<int>,
    pub created_at: int,
}

impl View for ProtocolChunk {
    type V = ChunkView;

    open spec fn view(&self) -> ChunkView {
        ChunkView {
            id: self.id as int,
            county_id: self.county_id as int,
            protocol_number: self.protocol_number@,
            protocol_title: self.protocol_title@,
            section: match self.section {
                Some(s) => Some(s@),
                None => None,
            },
            content: self.content@,
            source_pdf_url: match self.source_pdf_url {
                Some(s) => Some(s@),
                None => None,
            },
            protocol_effective_date: match self.protocol_effective_date {
                Some(s) => Some(s@),
                None => None,
            },
            last_verified_at: match self.last_verified_at {
                Some(t) => Some(t as int),
                None => None,
            },
            protocol_year: match self.protocol_year {
                Some(y) => Some(y as int),
                None => None,
            },
            created_at: self.created_at as int,
        }
    }
}

/// Payload for creating a protocol chunk.
pub struct CreateProtocolChunk {
    pub county_id: i32,
    pub protocol_number: String,
    pub protocol_title: String,
    pub section: Option<String>,
    pub content: String,
    pub source_pdf_url: Option<String>,
    pub protocol_effective_date: Option<String>,
    pub protocol_year: Option<i32>,
}

/// A lexical relevance score, kept as an exact rational.  The value is
/// `num / den` when `den > 0` and zero when `den == 0`; the scorer always
/// keeps `num <= den`, so the score stays within `[0, 1]`.
#[derive(Clone)]
pub struct RelevanceScore {
    pub num: u128,
    pub den: u128,
}

/// Mathematical view of a `RelevanceScore`.
pub struct ScoreView {
    pub num: int,
    pub den: int,
}

impl View for RelevanceScore {
    type V = ScoreView;

    open spec fn view(&self) -> ScoreView {
        ScoreView { num: self.num as int, den: self.den as int }
    }
}

/// A protocol chunk joined with its owning county's display data, a
/// relevance score and the original match rank used for tie-breaking.
#[derive(Clone)]
pub struct ProtocolSearchResult {
    pub id: i32,
    pub county_id: i32,
    pub county_name: String,
    pub state: String,
    pub protocol_number: String,
    pub protocol_title: String,
    pub section: Option<String>,
    pub content: String,
    pub source_pdf_url: Option<String>,
    pub protocol_year: Option<i32>,
    pub last_verified_at: Option<i64>,
    pub relevance_score: RelevanceScore,
    pub match_rank: usize,
}

/// Mathematical view of a `ProtocolSearchResult`.
pub struct ResultView {
    pub id: int,
    pub county_id: int,
    pub county_name: Seq<char>,
    pub state: Seq<char>,
    pub protocol_number: Seq<char>,
    pub protocol_title: Seq<char>,
    pub section: Option<Seq<char>>,
    pub content: Seq<char>,
    pub source_pdf_url: Option<Seq<char>>,
    pub protocol_year: Option<int>,
    pub last_verified_at: Option<int>,
    pub relevance_score: ScoreView,
    pub match_rank: int,
}

impl View for ProtocolSearchResult {
    type V = ResultView;

    open spec fn view(&self) -> ResultView {
        ResultView {
            id: self.id as int,
            county_id: self.county_id as int,
            county_name: self.county_name@,
            state: self.state@,
            protocol_number: self.protocol_number@,
            protocol_title: self.protocol_title@,
            section: match self.section {
                Some(s) => Some(s@),
                None => None,
            },
            content: self.content@,
            source_pdf_url: match self.source_pdf_url {
                Some(s) => Some(s@),
                None => None,
            },
            protocol_year: match self.protocol_year {
                Some(y) => Some(y as int),
                None => None,
            },
            last_verified_at: match self.last_verified_at {
                Some(t) => Some(t as int),
                None => None,
            },
            relevance_score: self.relevance_score@,
            match_rank: self.match_rank as int,
        }
    }
}

/// A search request as the route handler receives it.
pub struct SearchQuery {
    pub query: String,
    pub state: Option<String>,
    pub county_id: Option<i32>,
    pub limit: Option<i32>,
}

/// A state filter as a route receives it.
pub struct StateQuery {
    pub state: String,
}

/// A county selection as a route receives it.
pub struct UpdateCountyRequest {
    pub county_id: i32,
}

/// What the health probe reports.
pub struct HealthResponse {
    pub status: String,
    pub database: String,
    pub version: String,
}

/// A search request in its model form.
pub struct SearchRequest {
    pub query: String,
    pub state: Option<String>,
    pub county_id: Option<i32>,
    pub limit: Option<i32>,
}

/// The response of the search-and-synthesize pipeline.
pub struct SemanticSearchResponse {
    pub results: Vec<ProtocolSearchResult>,
    pub answer: Option<String>,
    pub total_count: i64,
}

/// A plain search response carrying the query back.
pub struct SearchResponse {
    pub results: Vec<ProtocolSearchResult>,
    pub total_count: i64,
    pub query: String,
}

/// Corpus-wide counts.
pub struct ProtocolStats {
    pub total_protocols: i64,
    pub total_counties: i64,
    pub states_covered: i64,
}

/// The views of a sequence of viewable values.
pub open spec fn views_of<T: View>(s: Seq<T>) -> Seq<T::V> {
    s.map_values(|x: T| x@)
}

/// The first county in `cs` whose id is `id`, if any; this models the
/// store's lookup of a chunk's owning agency.
pub open spec fn county_lookup(cs: Seq<CountyView>, id: int) -> Option<CountyView>
    decreases cs.len(),
{
    if cs.len() == 0 {
        None
    } else if cs[0].id == id {
        Some(cs[0])
    } else {
        county_lookup(cs.drop_first(), id)
    }
}

/// Finds the first county with the given id.
pub fn find_county<'a>(counties: &'a Vec<County>, id: i32) -> (r: Option<&'a County>)
    ensures
        match r {
            Some(c) => county_lookup(views_of(counties@), id as int) == Some(c@),
            None => county_lookup(views_of(counties@), id as int) is None,
        },
{
    let mut i: usize = 0;
    proof {
        assert(views_of(counties@).skip(0) =~= views_of(counties@));
    }
    while i < counties.len()
        invariant
            i <= counties@.len(),
            county_lookup(views_of(counties@), id as int) == county_lookup(
                views_of(counties@).skip(i as int),
                id as int,
            ),
        decreases counties@.len() - i,
    {
        proof {
            assert(views_of(counties@).skip(i as int)[0] == counties@[i as int]@);
            assert(views_of(counties@).skip(i as int).drop_first() =~= views_of(
                counties@,
            ).skip(i as int + 1));
        }
        if counties[i].id == id {
            return Some(&counties[i]);
        }
        i += 1;
    }
    proof {
        assert(views_of(counties@).skip(i as int).len() == 0);
    }
    None
}

} // verus!
