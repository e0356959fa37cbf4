use sb_subscription::{Charge, PaymentMode, SbSubscription};

fn apply(balances: &mut Vec<(u64, i128)>, charge: &Charge) {
    for entry in balances.iter_mut() {
        if entry.0 == charge.payer {
            entry.1 -= charge.amount;
        }
        if entry.0 == charge.payee {
            entry.1 += charge.amount;
        }
    }
}

fn balance_of(balances: &Vec<(u64, i128)>, who: u64) -> i128 {
    for entry in balances.iter() {
        if entry.0 == who {
            return entry.1;
        }
    }
    0
}

#[test]
fn full_subscription_lifecycle() {
    let mut st = SbSubscription::new();
    let admin: u64 = 1;
    let user: u64 = 2;
    let treasury: u64 = 3;
    let token: u64 = 4;
    let mut balances: Vec<(u64, i128)> = vec![(user, 10_000_000), (treasury, 0)];

    st.init(admin, token, treasury).unwrap();
    st.create_plan(admin, 1, 30, 1_000_000).unwrap();

    let plan = st.get_plan(1).unwrap();
    assert!(plan.active);
    assert_eq!(plan.period_ledgers, 30);
    assert_eq!(plan.price_stroops, 1_000_000);

    let user_balance_before_subscribe = balance_of(&balances, user);
    let treasury_balance_before_subscribe = balance_of(&balances, treasury);

    let charge = st.subscribe(user, 1, 0).unwrap();
    assert!(matches!(charge.mode, PaymentMode::Direct));
    apply(&mut balances, &charge);

    let user_balance_after_subscribe = balance_of(&balances, user);
    let treasury_balance_after_subscribe = balance_of(&balances, treasury);
    assert_eq!(
        user_balance_before_subscribe - user_balance_after_subscribe,
        1_000_000
    );
    assert_eq!(
        treasury_balance_after_subscribe - treasury_balance_before_subscribe,
        1_000_000
    );

    let mut sub = st.get_subscription(user).unwrap();
    assert!(sub.active);
    assert_eq!(sub.plan_id, 1);
    assert_eq!(sub.next_renewal_ledger - sub.started_ledger, 30);

    let err = st.renew(user, 0);
    assert!(err.is_err());

    let user_balance_before_renew = balance_of(&balances, user);
    let treasury_balance_before_renew = balance_of(&balances, treasury);
    let due = sub.next_renewal_ledger;
    let renew_charge = st.renew(user, due).unwrap();
    assert!(matches!(renew_charge.mode, PaymentMode::Delegated));
    apply(&mut balances, &renew_charge);

    let user_balance_after_renew = balance_of(&balances, user);
    let treasury_balance_after_renew = balance_of(&balances, treasury);
    assert_eq!(user_balance_before_renew - user_balance_after_renew, 1_000_000);
    assert_eq!(
        treasury_balance_after_renew - treasury_balance_before_renew,
        1_000_000
    );

    sub = st.get_subscription(user).unwrap();
    assert_eq!(sub.next_renewal_ledger - sub.started_ledger, 60);

    st.cancel(user).unwrap();
    sub = st.get_subscription(user).unwrap();
    assert!(!sub.active);
}

#[test]
fn non_admin_cannot_create_plan() {
    let mut st = SbSubscription::new();
    let admin: u64 = 1;
    let user: u64 = 2;
    let treasury: u64 = 3;
    let token: u64 = 4;

    st.init(admin, token, treasury).unwrap();

    let err = st.create_plan(user, 1, 30, 500_000);
    assert!(err.is_err());
}

#[test]
fn cannot_subscribe_to_inactive_plan() {
    let mut st = SbSubscription::new();
    let admin: u64 = 1;
    let user: u64 = 2;
    let treasury: u64 = 3;
    let token: u64 = 4;

    st.init(admin, token, treasury).unwrap();
    st.create_plan(admin, 1, 30, 1_000_000).unwrap();
    st.set_plan_status(admin, 1, false).unwrap();

    let err = st.subscribe(user, 1, 0);
    assert!(err.is_err());
}

#[test]
fn renew_requires_next_due_ledger_and_allowance() {
    let mut st = SbSubscription::new();
    let admin: u64 = 1;
    let user: u64 = 2;
    let treasury: u64 = 3;
    let token: u64 = 4;
    let mut balances: Vec<(u64, i128)> = vec![(user, 8_000_000), (treasury, 0)];

    st.init(admin, token, treasury).unwrap();
    st.create_plan(admin, 7, 15, 2_000_000).unwrap();
    let charge = st.subscribe(user, 7, 0).unwrap();
    apply(&mut balances, &charge);

    // Renew cannot happen before the due ledger.
    let too_early_err = st.renew(user, 0);
    assert!(too_early_err.is_err());

    let sub = st.get_subscription(user).unwrap();
    let user_before = balance_of(&balances, user);
    let treasury_before = balance_of(&balances, treasury);
    let renew_charge = st.renew(user, sub.next_renewal_ledger).unwrap();
    // The delegated charge draws on the allowance the subscriber granted
    // the contract on the payment ledger.
    assert!(matches!(renew_charge.mode, PaymentMode::Delegated));
    apply(&mut balances, &renew_charge);
    assert_eq!(user_before - balance_of(&balances, user), 2_000_000);
    assert_eq!(balance_of(&balances, treasury) - treasury_before, 2_000_000);
}

#[test]
fn list_plans_and_subscriptions_are_paginated() {
    let mut st = SbSubscription::new();
    let admin: u64 = 1;
    let treasury: u64 = 3;
    let token: u64 = 4;

    st.init(admin, token, treasury).unwrap();
    st.create_plan(admin, 1, 30, 1_000_000).unwrap();
    st.create_plan(admin, 2, 30, 2_000_000).unwrap();
    st.create_plan(admin, 3, 30, 3_000_000).unwrap();

    let first_page_plans = st.list_plans(0, 2).unwrap();
    assert_eq!(first_page_plans.len(), 2);
    assert_eq!(first_page_plans.get(0).unwrap().id, 1);
    assert_eq!(first_page_plans.get(1).unwrap().id, 2);

    let second_page_plans = st.list_plans(2, 2).unwrap();
    assert_eq!(second_page_plans.len(), 1);
    assert_eq!(second_page_plans.get(0).unwrap().id, 3);

    let user_1: u64 = 11;
    let user_2: u64 = 12;
    let user_3: u64 = 13;
    st.subscribe(user_1, 1, 0).unwrap();
    st.subscribe(user_2, 2, 0).unwrap();
    st.subscribe(user_3, 3, 0).unwrap();

    let subscribers_page = st.list_subscribers(1, 2).unwrap();
    assert_eq!(subscribers_page.len(), 2);
    assert_eq!(*subscribers_page.get(0).unwrap(), user_2);
    assert_eq!(*subscribers_page.get(1).unwrap(), user_3);

    let subscriptions_page = st.list_subscriptions(0, 2).unwrap();
    assert_eq!(subscriptions_page.len(), 2);
    assert_eq!(subscriptions_page.get(0).unwrap().plan_id, 1);
    assert_eq!(subscriptions_page.get(1).unwrap().plan_id, 2);
}
