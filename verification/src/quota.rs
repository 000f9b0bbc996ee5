//! The quota guard: a per-identity, per-day call ceiling keyed by
//! subscription tier.
//!
//! The stored call count is meaningful only relative to its stored
//! day-stamp: a stale stamp means the count is treated as zero.  An
//! identity may make exactly `ceiling` requests in a calendar day; the
//! next one is rejected.  Texts (tier labels and day stamps) are compared
//! by their UTF-8 bytes.

use vstd::prelude::*;
use vstd::string::StringSliceAdditionalSpecFns;
use vstd::utf8::encode_utf8;

use crate::users::AuthenticatedUser;
use crate::text::str_eq;

verus! {

/// Daily call ceiling for a tier label: `pro` and `enterprise` get 1000,
/// every other label (unknown ones included) gets the free ceiling of 5.
pub open spec fn ceiling_of(tier: Seq<char>) -> int {
    if encode_utf8(tier) == "pro".spec_bytes() || encode_utf8(tier) == "enterprise".spec_bytes() {
        1000
    } else {
        5
    }
}

/// The count that applies today: the stored count when the stored stamp
/// is today's, zero otherwise.
pub open spec fn count_for_today(
    count: i32,
    last_query_date: Option<Seq<char>>,
    today: Seq<char>,
) -> int {
    match last_query_date {
        Some(d) => if encode_utf8(d) == encode_utf8(today) {
            count as int
        } else {
            0
        },
        None => 0,
    }
}

/// Whether an identity with this tier, count and stamp may make one more
/// call today.
pub open spec fn quota_allows(
    tier: Seq<char>,
    count: i32,
    last_query_date: Option<Seq<char>>,
    today: Seq<char>,
) -> bool {
    count_for_today(count, last_query_date, today) < ceiling_of(tier)
}

/// The quota rejection, surfaced to callers as a distinct
/// payment/limit-required condition.
pub struct QuotaExceeded;

impl QuotaExceeded {
    /// The actionable message shown when the daily ceiling is reached.
    pub fn message(&self) -> (r: String)
        ensures
            r@ == "Daily query limit reached. Upgrade to Pro for unlimited queries."@,
    {
        let m: &str = "Daily query limit reached. Upgrade to Pro for unlimited queries.";
        m.to_owned()
    }
}

/// Daily call ceiling for a tier label.
pub fn tier_ceiling(tier: &str) -> (r: u32)
    ensures
        r as int == ceiling_of(tier@),
{
    if str_eq(tier, "pro") || str_eq(tier, "enterprise") {
        1000
    } else {
        5
    }
}

/// The stamp view of an optional stored day stamp.
pub open spec fn stamp_view(d: Option<String>) -> Option<Seq<char>> {
    match d {
        Some(s) => Some(s@),
        None => None,
    }
}

/// Rejects the request when the identity's count for today has reached its
/// tier ceiling; otherwise lets the pipeline run.  Runs before any other
/// pipeline stage and mutates nothing.
pub fn check_query_limit(user: &AuthenticatedUser, today: &str) -> (r: Result<(), QuotaExceeded>)
    ensures
        r is Ok <==> quota_allows(
            user.tier@,
            user.query_count_today,
            stamp_view(user.last_query_date),
            today@,
        ),
{
    let ceiling = tier_ceiling(user.tier.as_str());
    let count_today: i32 = match &user.last_query_date {
        Some(d) => if str_eq(d.as_str(), today) {
            user.query_count_today
        } else {
            0
        },
        None => 0,
    };
    if count_today >= 0 && count_today as u32 >= ceiling {
        Err(QuotaExceeded)
    } else {
        Ok(())
    }
}

/// An identity's quota snapshot: tier label, count of calls made today and
/// the day-stamp of the last counted call.
pub struct QuotaState {
    pub tier: String,
    pub query_count_today: i32,
    pub last_query_date: Option<String>,
}

impl QuotaState {
    /// Whether this snapshot admits one more call today.
    pub fn allows(&self, today: &str) -> (r: bool)
        ensures
            r == quota_allows(
                self.tier@,
                self.query_count_today,
                stamp_view(self.last_query_date),
                today@,
            ),
    {
        let user = AuthenticatedUser {
            id: 0,
            open_id: String::new(),
            tier: self.tier.clone(),
            query_count_today: self.query_count_today,
            last_query_date: match &self.last_query_date {
                Some(d) => Some(d.clone()),
                None => None,
            },
        };
        match check_query_limit(&user, today) {
            Ok(()) => true,
            Err(_) => false,
        }
    }

    /// Counts a completed call: increments the stored count when the stored
    /// stamp is today's, otherwise resets the count to 1; either way the
    /// stamp becomes today's.  This is the state transition the store must
    /// apply as one atomic conditional update.
    pub fn record_success(&mut self, today: &str)
        requires
            (match old(self).last_query_date {
                Some(d) => encode_utf8(d@) == encode_utf8(today@),
                None => false,
            }) ==> old(self).query_count_today < i32::MAX,
        ensures
            final(self).tier == old(self).tier,
            final(self).query_count_today as int == (match old(self).last_query_date {
                Some(d) => if encode_utf8(d@) == encode_utf8(today@) {
                    old(self).query_count_today as int + 1
                } else {
                    1
                },
                None => 1,
            }),
            match final(self).last_query_date {
                Some(d) => d@ == today@,
                None => false,
            },
    {
        let same_day: bool = match &self.last_query_date {
            Some(d) => str_eq(d.as_str(), today),
            None => false,
        };
        if same_day {
            self.query_count_today = self.query_count_today + 1;
        } else {
            self.query_count_today = 1;
        }
        self.last_query_date = Some(today.to_owned());
    }
}

} // verus!
