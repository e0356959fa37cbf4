use sb_subscription::{PaymentMode, Plan, SbSubscription, SubscriptionError};

fn initialized() -> SbSubscription {
    let mut st = SbSubscription::new();
    st.init(1, 4, 3).unwrap();
    st
}

#[test]
fn created_plan_reads_back_exactly() {
    let mut st = initialized();
    st.create_plan(1, 7, 45, 2_500_000).unwrap();
    assert_eq!(
        st.get_plan(7).unwrap(),
        Plan { id: 7, period_ledgers: 45, price_stroops: 2_500_000, active: true }
    );
    assert_eq!(
        st.create_plan(1, 7, 45, 2_500_000),
        Err(SubscriptionError::PlanAlreadyExists)
    );
}

#[test]
fn plan_inactive_depends_only_on_the_flag_at_call_time() {
    let mut st = initialized();
    st.create_plan(1, 1, 30, 1_000_000).unwrap();
    st.set_plan_status(1, 1, false).unwrap();
    assert_eq!(
        st.subscribe(2, 1, 0).unwrap_err(),
        SubscriptionError::PlanInactive
    );
    st.set_plan_status(1, 1, true).unwrap();
    assert!(st.subscribe(2, 1, 0).is_ok());
}

#[test]
fn first_due_tick_is_start_plus_period() {
    let mut st = initialized();
    st.create_plan(1, 1, 17, 1_000_000).unwrap();
    st.subscribe(2, 1, 1_000).unwrap();
    let sub = st.get_subscription(2).unwrap();
    assert_eq!(sub.started_ledger, 1_000);
    assert_eq!(sub.next_renewal_ledger - sub.started_ledger, 17);
}

#[test]
fn renewal_schedule_is_additive_not_reset_to_now() {
    let mut st = initialized();
    st.create_plan(1, 1, 30, 1_000_000).unwrap();
    st.subscribe(2, 1, 0).unwrap();
    // A late renewal at tick 100 advances the due tick from 30 to 60, not
    // to 130: the schedule catches up deterministically.
    st.renew(2, 100).unwrap();
    assert_eq!(st.get_subscription(2).unwrap().next_renewal_ledger, 60);
    st.renew(2, 100).unwrap();
    assert_eq!(st.get_subscription(2).unwrap().next_renewal_ledger, 90);
    st.renew(2, 100).unwrap();
    assert_eq!(st.get_subscription(2).unwrap().next_renewal_ledger, 120);
    // Caught up: the next renewal is early again.
    assert_eq!(st.renew(2, 100).unwrap_err(), SubscriptionError::RenewTooEarly);
}

#[test]
fn cancel_then_resubscribe_yields_a_fresh_record() {
    let mut st = initialized();
    st.create_plan(1, 1, 30, 1_000_000).unwrap();
    st.subscribe(2, 1, 10).unwrap();
    st.cancel(2).unwrap();
    let charge = st.subscribe(2, 1, 500).unwrap();
    assert_eq!(charge.amount, 1_000_000);
    assert!(matches!(charge.mode, PaymentMode::Direct));
    let sub = st.get_subscription(2).unwrap();
    assert!(sub.active);
    assert_eq!(sub.started_ledger, 500);
    assert_eq!(sub.next_renewal_ledger, 530);
}

#[test]
fn cancelling_twice_is_an_allowed_no_op() {
    let mut st = initialized();
    st.create_plan(1, 1, 30, 1_000_000).unwrap();
    st.subscribe(2, 1, 0).unwrap();
    st.cancel(2).unwrap();
    st.cancel(2).unwrap();
    assert!(!st.get_subscription(2).unwrap().active);
}

#[test]
fn a_principal_is_indexed_once_across_cycles() {
    let mut st = initialized();
    st.create_plan(1, 1, 30, 1_000_000).unwrap();
    st.subscribe(2, 1, 0).unwrap();
    st.cancel(2).unwrap();
    st.subscribe(2, 1, 40).unwrap();
    let subscribers = st.list_subscribers(0, 50).unwrap();
    assert_eq!(subscribers, vec![2]);
    assert_eq!(st.subscriber_count, 1);
}

#[test]
fn non_overlapping_pages_reconstruct_the_catalog() {
    let mut st = initialized();
    let ids: Vec<u32> = vec![10, 11, 12, 13, 14];
    for (k, id) in ids.iter().enumerate() {
        st.create_plan(1, *id, 30, 1_000_000 + k as i128).unwrap();
    }

    let full = st.list_plans(0, 5).unwrap();
    assert_eq!(full.len(), 5);
    let listed: Vec<u32> = full.iter().map(|p| p.id).collect();
    assert_eq!(listed, ids);

    let mut pieced: Vec<Plan> = Vec::new();
    pieced.extend(st.list_plans(0, 2).unwrap());
    pieced.extend(st.list_plans(2, 2).unwrap());
    pieced.extend(st.list_plans(4, 2).unwrap());
    assert_eq!(pieced, full);

    assert_eq!(st.list_plans(5, 2).unwrap(), Vec::<Plan>::new());
    assert_eq!(st.list_plans(0, 0).unwrap(), Vec::<Plan>::new());
}

#[test]
fn touched_entries_get_their_lifetime_extended() {
    let mut st = initialized();
    st.create_plan(1, 1, 30, 1_000_000).unwrap();
    assert_eq!(st.plans[0].ttl, 200_000);
    assert_eq!(st.instance_ttl, 200_000);
    st.subscribe(2, 1, 0).unwrap();
    assert_eq!(st.subs[0].ttl, 200_000);
}
