use protocol_guide::quota::{check_query_limit, tier_ceiling, QuotaState};
use protocol_guide::users::{
    AuthenticatedUser, FeedbackStatus, User, UserResponse, UserRole, UserTier,
};

fn identity(tier: &str, count: i32, last: Option<&str>) -> AuthenticatedUser {
    AuthenticatedUser {
        id: 1,
        open_id: "open-1".to_string(),
        tier: tier.to_string(),
        query_count_today: count,
        last_query_date: last.map(|d| d.to_string()),
    }
}

const TODAY: &str = "2024-06-02";
const YESTERDAY: &str = "2024-06-01";

#[test]
fn tier_ceilings() {
    assert_eq!(tier_ceiling("pro"), 1000);
    assert_eq!(tier_ceiling("enterprise"), 1000);
    assert_eq!(tier_ceiling("free"), 5);
    assert_eq!(tier_ceiling(""), 5);
    assert_eq!(tier_ceiling("unknown-tier"), 5);
    // Tier labels are matched exactly.
    assert_eq!(tier_ceiling("PRO"), 5);
}

#[test]
fn free_identity_at_ceiling_today_is_rejected() {
    let user = identity("free", 5, Some(TODAY));
    assert!(check_query_limit(&user, TODAY).is_err());
}

#[test]
fn free_identity_below_ceiling_is_allowed_and_counts_to_five() {
    let user = identity("free", 4, Some(TODAY));
    assert!(check_query_limit(&user, TODAY).is_ok());

    let mut state = QuotaState {
        tier: "free".to_string(),
        query_count_today: 4,
        last_query_date: Some(TODAY.to_string()),
    };
    state.record_success(TODAY);
    assert_eq!(state.query_count_today, 5);
    assert_eq!(state.last_query_date.as_deref(), Some(TODAY));
    // The fifth call used the day's last slot: the next is rejected.
    assert!(!state.allows(TODAY));
}

#[test]
fn stale_stamp_is_allowed_regardless_of_count_and_resets_to_one() {
    let user = identity("free", 999, Some(YESTERDAY));
    assert!(check_query_limit(&user, TODAY).is_ok());

    let mut state = QuotaState {
        tier: "free".to_string(),
        query_count_today: 999,
        last_query_date: Some(YESTERDAY.to_string()),
    };
    state.record_success(TODAY);
    assert_eq!(state.query_count_today, 1);
    assert_eq!(state.last_query_date.as_deref(), Some(TODAY));
}

#[test]
fn first_ever_call_counts_as_one() {
    let user = identity("free", 0, None);
    assert!(check_query_limit(&user, TODAY).is_ok());

    let mut state = QuotaState {
        tier: "free".to_string(),
        query_count_today: 0,
        last_query_date: None,
    };
    state.record_success(TODAY);
    assert_eq!(state.query_count_today, 1);
    assert_eq!(state.last_query_date.as_deref(), Some(TODAY));
}

#[test]
fn exactly_ceiling_calls_fit_in_one_day() {
    let mut state = QuotaState {
        tier: "free".to_string(),
        query_count_today: 0,
        last_query_date: None,
    };
    let mut served = 0;
    for _ in 0..8 {
        if state.allows(TODAY) {
            state.record_success(TODAY);
            served += 1;
        }
    }
    assert_eq!(served, 5);
    assert_eq!(state.query_count_today, 5);
}

#[test]
fn pro_identity_uses_the_large_ceiling() {
    let user = identity("pro", 999, Some(TODAY));
    assert!(check_query_limit(&user, TODAY).is_ok());
    let at_ceiling = identity("pro", 1000, Some(TODAY));
    assert!(check_query_limit(&at_ceiling, TODAY).is_err());
}

#[test]
fn quota_rejection_carries_an_actionable_message() {
    let user = identity("free", 5, Some(TODAY));
    let err = check_query_limit(&user, TODAY).unwrap_err();
    assert_eq!(
        err.message(),
        "Daily query limit reached. Upgrade to Pro for unlimited queries."
    );
}

#[test]
fn defaults_for_roles_tiers_and_feedback() {
    assert!(matches!(UserRole::default(), UserRole::User));
    assert!(matches!(UserTier::default(), UserTier::Free));
    assert!(matches!(FeedbackStatus::default(), FeedbackStatus::Pending));
}

#[test]
fn user_response_projects_the_client_fields() {
    let user = User {
        id: 12,
        open_id: "open-12".to_string(),
        name: Some("Dana".to_string()),
        email: Some("dana@example.com".to_string()),
        login_method: Some("oauth".to_string()),
        role: "user".to_string(),
        tier: "pro".to_string(),
        query_count_today: 3,
        last_query_date: Some(TODAY.to_string()),
        selected_county_id: Some(4),
        stripe_customer_id: None,
        subscription_id: None,
        subscription_status: Some("active".to_string()),
        subscription_end_date: None,
        created_at: 0,
        updated_at: 0,
        last_signed_in: 0,
    };
    let resp = UserResponse::from(user);
    assert_eq!(resp.id, 12);
    assert_eq!(resp.name.as_deref(), Some("Dana"));
    assert_eq!(resp.email.as_deref(), Some("dana@example.com"));
    assert_eq!(resp.role, "user");
    assert_eq!(resp.tier, "pro");
    assert_eq!(resp.query_count_today, 3);
    assert_eq!(resp.selected_county_id, Some(4));
    assert_eq!(resp.subscription_status.as_deref(), Some("active"));
}
