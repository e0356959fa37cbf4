use sb_subscription::{SbSubscription, SubscriptionError};

fn initialized() -> SbSubscription {
    let mut st = SbSubscription::new();
    st.init(1, 4, 3).unwrap();
    st
}

#[test]
fn init_twice_is_already_initialized() {
    let mut st = initialized();
    assert_eq!(st.init(1, 4, 3), Err(SubscriptionError::AlreadyInitialized));
}

#[test]
fn create_plan_before_init_is_not_initialized() {
    let mut st = SbSubscription::new();
    assert_eq!(
        st.create_plan(1, 1, 30, 1_000_000),
        Err(SubscriptionError::NotInitialized)
    );
}

#[test]
fn set_plan_status_is_admin_gated() {
    let mut st = initialized();
    st.create_plan(1, 1, 30, 1_000_000).unwrap();
    assert_eq!(
        st.set_plan_status(2, 1, false),
        Err(SubscriptionError::Unauthorized)
    );
    assert_eq!(
        st.create_plan(2, 9, 30, 1_000_000),
        Err(SubscriptionError::Unauthorized)
    );
}

#[test]
fn zero_period_is_invalid() {
    let mut st = initialized();
    assert_eq!(
        st.create_plan(1, 1, 0, 1_000_000),
        Err(SubscriptionError::InvalidPeriod)
    );
}

#[test]
fn non_positive_price_is_invalid() {
    let mut st = initialized();
    assert_eq!(st.create_plan(1, 1, 30, 0), Err(SubscriptionError::InvalidPrice));
    assert_eq!(st.create_plan(1, 1, 30, -5), Err(SubscriptionError::InvalidPrice));
}

#[test]
fn duplicate_plan_id_is_rejected() {
    let mut st = initialized();
    st.create_plan(1, 1, 30, 1_000_000).unwrap();
    assert_eq!(
        st.create_plan(1, 1, 60, 2_000_000),
        Err(SubscriptionError::PlanAlreadyExists)
    );
}

#[test]
fn missing_plan_is_plan_not_found() {
    let mut st = initialized();
    assert_eq!(st.get_plan(9).unwrap_err(), SubscriptionError::PlanNotFound);
    assert_eq!(
        st.set_plan_status(1, 9, true),
        Err(SubscriptionError::PlanNotFound)
    );
    assert_eq!(
        st.subscribe(2, 9, 0).unwrap_err(),
        SubscriptionError::PlanNotFound
    );
}

#[test]
fn inactive_plan_rejects_subscribe_and_renew() {
    let mut st = initialized();
    st.create_plan(1, 1, 30, 1_000_000).unwrap();
    st.subscribe(2, 1, 0).unwrap();
    st.set_plan_status(1, 1, false).unwrap();
    assert_eq!(
        st.subscribe(5, 1, 0).unwrap_err(),
        SubscriptionError::PlanInactive
    );
    assert_eq!(st.renew(2, 30).unwrap_err(), SubscriptionError::PlanInactive);
}

#[test]
fn subscribing_while_active_already_exists() {
    let mut st = initialized();
    st.create_plan(1, 1, 30, 1_000_000).unwrap();
    st.subscribe(2, 1, 0).unwrap();
    assert_eq!(
        st.subscribe(2, 1, 5).unwrap_err(),
        SubscriptionError::SubscriptionAlreadyExists
    );
}

#[test]
fn missing_record_is_subscription_not_found() {
    let mut st = initialized();
    assert_eq!(st.cancel(2), Err(SubscriptionError::SubscriptionNotFound));
    assert_eq!(
        st.get_subscription(2).unwrap_err(),
        SubscriptionError::SubscriptionNotFound
    );
    assert_eq!(
        st.renew(2, 0).unwrap_err(),
        SubscriptionError::SubscriptionNotFound
    );
}

#[test]
fn renewing_a_cancelled_record_is_rejected() {
    let mut st = initialized();
    st.create_plan(1, 1, 30, 1_000_000).unwrap();
    st.subscribe(2, 1, 0).unwrap();
    st.cancel(2).unwrap();
    assert_eq!(
        st.renew(2, 30).unwrap_err(),
        SubscriptionError::SubscriptionCancelled
    );
}

#[test]
fn renew_before_due_tick_is_too_early() {
    let mut st = initialized();
    st.create_plan(1, 1, 30, 1_000_000).unwrap();
    st.subscribe(2, 1, 0).unwrap();
    assert_eq!(st.renew(2, 29).unwrap_err(), SubscriptionError::RenewTooEarly);
}

#[test]
fn page_limit_above_fifty_is_invalid() {
    let mut st = initialized();
    assert_eq!(
        st.list_plans(0, 51).unwrap_err(),
        SubscriptionError::InvalidPageSize
    );
    assert_eq!(
        st.list_subscribers(0, 51).unwrap_err(),
        SubscriptionError::InvalidPageSize
    );
    assert_eq!(
        st.list_subscriptions(0, 51).unwrap_err(),
        SubscriptionError::InvalidPageSize
    );
    // Fifty itself is the largest allowed page.
    assert!(st.list_plans(0, 50).is_ok());
}
