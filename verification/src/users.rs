//! Identities, subscription tiers, feedback and query-history records.

use vstd::prelude::*;

verus! {

/// Role of an identity.
pub enum UserRole {
    User,
    Admin,
}

impl Default for UserRole {
    /// New identities are ordinary users.
    fn default() -> (r: Self)
        ensures
            r is User,
    {
        UserRole::User
    }
}

/// Subscription tier of an identity, determining its daily quota ceiling.
pub enum UserTier {
    Free,
    Pro,
    Enterprise,
}

impl Default for UserTier {
    /// New identities start on the free tier.
    fn default() -> (r: Self)
        ensures
            r is Free,
    {
        UserTier::Free
    }
}

/// A stored identity.  Timestamps are seconds since the Unix epoch.
pub struct User {
    pub id: i32,
    pub open_id: String,
    pub name: Option<String>,
    pub email: Option<String>,
    pub login_method: Option<String>,
    pub role: String,
    pub tier: String,
    pub query_count_today: i32,
    pub last_query_date: Option<String>,
    pub selected_county_id: Option<i32>,
    pub stripe_customer_id: Option<String>,
    pub subscription_id: Option<String>,
    pub subscription_status: Option<String>,
    pub subscription_end_date: Option<i64>,
    pub created_at: i64,
    pub updated_at: i64,
    pub last_signed_in: i64,
}

/// Payload for creating an identity.
pub struct CreateUser {
    pub open_id: String,
    pub name: Option<String>,
    pub email: Option<String>,
    pub login_method: Option<String>,
}

/// The identity fields exposed to clients.
pub struct UserResponse {
    pub id: i32,
    pub name: Option<String>,
    pub email: Option<String>,
    pub role: String,
    pub tier: String,
    pub query_count_today: i32,
    pub selected_county_id: Option<i32>,
    pub subscription_status: Option<String>,
}

impl From<User> for UserResponse {
    /// Projects a stored identity onto its client-visible fields.
    fn from(user: User) -> (r: Self) {
        UserResponse {
            id: user.id,
            name: user.name,
            email: user.email,
            role: user.role,
            tier: user.tier,
            query_count_today: user.query_count_today,
            selected_county_id: user.selected_county_id,
            subscription_status: user.subscription_status,
        }
    }
}

impl vstd::std_specs::convert::FromSpecImpl<User> for UserResponse {
    open spec fn obeys_from_spec() -> bool {
        true
    }

    open spec fn from_spec(user: User) -> Self {
        UserResponse {
            id: user.id,
            name: user.name,
            email: user.email,
            role: user.role,
            tier: user.tier,
            query_count_today: user.query_count_today,
            selected_county_id: user.selected_county_id,
            subscription_status: user.subscription_status,
        }
    }
}

/// Claims carried by an identity token.
pub struct Claims {
    pub sub: String,
    pub exp: usize,
    pub iat: usize,
}

/// The per-request capability: identity, tier and quota snapshot, resolved
/// once before the pipeline runs so that the quota decision and the later
/// counter update act on one consistent snapshot.
pub struct AuthenticatedUser {
    pub id: i32,
    pub open_id: String,
    pub tier: String,
    pub query_count_today: i32,
    pub last_query_date: Option<String>,
}

/// Category of a feedback record.
pub enum FeedbackCategory {
    Error,
    Suggestion,
    General,
}

/// Review status of a feedback record.
pub enum FeedbackStatus {
    Pending,
    Reviewed,
    Resolved,
    Dismissed,
}

impl Default for FeedbackStatus {
    /// New feedback awaits review.
    fn default() -> (r: Self)
        ensures
            r is Pending,
    {
        FeedbackStatus::Pending
    }
}

/// A stored feedback record.
pub struct Feedback {
    pub id: i32,
    pub user_id: i32,
    pub category: String,
    pub protocol_ref: Option<String>,
    pub county_id: Option<i32>,
    pub subject: String,
    pub message: String,
    pub status: String,
    pub admin_notes: Option<String>,
    pub created_at: i64,
    pub updated_at: i64,
}

/// Payload for creating a feedback record.
pub struct CreateFeedback {
    pub user_id: i32,
    pub category: String,
    pub protocol_ref: Option<String>,
    pub county_id: Option<i32>,
    pub subject: String,
    pub message: String,
}

/// A stored history record of one answered query.
pub struct QueryLog {
    pub id: i32,
    pub user_id: i32,
    pub county_id: i32,
    pub query_text: String,
    pub response_text: Option<String>,
    pub protocol_refs: Option<String>,
    pub created_at: i64,
}

/// Payload for creating a history record.
pub struct CreateQueryLog {
    pub user_id: i32,
    pub county_id: i32,
    pub query_text: String,
    pub response_text: Option<String>,
    pub protocol_refs: Option<Vec<String>>,
}

/// One line of an identity's query history.
pub struct QueryHistoryItem {
    pub id: i32,
    pub query_text: String,
    pub response_text: Option<String>,
    pub county_name: String,
    pub state: String,
    pub created_at: i64,
}

} // verus!
