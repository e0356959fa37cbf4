//! The contract state and its operations: one-shot initialization, the
//! admin-gated plan catalog, and the subscribe/renew/cancel state machine.
//!
//! Every operation is a transition on [`SbSubscription`]: it either succeeds
//! and commits its whole effect, or fails with one
//! [`SubscriptionError`] kind and leaves the state exactly as it was
//! (abort-with-rollback semantics). Callers supply the logical clock value
//! where an operation reads it, and receive a [`Charge`] wherever funds must
//! move on the external payment ledger.
//!
//! Authorization is the host's collaborator: `init`, `create_plan`,
//! `set_plan_status`, `subscribe` and `cancel` expect the host to have
//! authenticated the acting principal (`admin`, `caller`, `subscriber`)
//! before the call; `renew` is deliberately open to any caller, the standing
//! allowance behind its delegated charge being the subscriber's real consent.

use crate::errors::SubscriptionError;
use crate::model::{
    has_plan, has_sub, lookup_plan, lookup_sub, plan_idx, plans_unique, sub_idx, subs_unique,
};
use crate::model::{lemma_lookup_plan_push, lemma_lookup_plan_update};
use crate::model::{lemma_lookup_sub_push, lemma_lookup_sub_update};
use crate::records::{Charge, Config, PaymentMode, Plan, PlanRow, SubRow, Subscription};
use crate::storage::{bump_instance_ttl, bump_persistent_ttl};
use crate::storage::{bumped_instance, bumped_persistent};
use crate::storage::PERSISTENT_BUMP_AMOUNT;
use vstd::pervasive::VecAdditionalExecFns;
use vstd::prelude::*;

verus! {

/// The whole durable state of the billing ledger: the one-shot
/// configuration with the lifetime of its storage class, the two counters,
/// and the two dense, insertion-ordered tables.
pub struct SbSubscription {
    /// `None` until `init` has run.
    pub config: Option<Config>,
    /// Remaining lifetime of the configuration storage class.
    pub instance_ttl: u32,
    /// Number of plans ever created; equals the plan table's length.
    pub plan_count: u32,
    /// Number of principals ever first-subscribed; equals the subscription
    /// table's length. Monotonic: never decremented.
    pub subscriber_count: u32,
    /// The plan table, in creation order; ids are unique.
    pub plans: Vec<PlanRow>,
    /// The subscription table, in first-subscribe order; one row per
    /// principal, overwritten in place on re-subscribe.
    pub subs: Vec<SubRow>,
}

impl SbSubscription {
    /// Well-formedness: the counters match the tables, keys are unique,
    /// every plan was created valid, and every subscription points at an
    /// existing plan.
    pub open spec fn wf(self) -> bool {
        &&& self.plan_count as int == self.plans@.len()
        &&& self.subscriber_count as int == self.subs@.len()
        &&& plans_unique(self.plans@)
        &&& subs_unique(self.subs@)
        &&& forall|i: int|
            0 <= i < self.plans@.len() ==> (#[trigger] self.plans@[i]).plan.period_ledgers > 0
                && self.plans@[i].plan.price_stroops > 0
        &&& forall|i: int|
            0 <= i < self.subs@.len() ==> has_plan(
                self.plans@,
                (#[trigger] self.subs@[i]).sub.plan_id,
            )
    }

    /// The configured values; meaningful only once `init` has run.
    pub open spec fn cfg(self) -> Config {
        self.config.unwrap()
    }

    /// The plan records in creation order, without their lifetimes.
    pub open spec fn plan_seq(self) -> Seq<Plan> {
        self.plans@.map(|i: int, r: PlanRow| r.plan)
    }

    /// The subscriber principals in first-subscribe order.
    pub open spec fn subscriber_seq(self) -> Seq<u64> {
        self.subs@.map(|i: int, r: SubRow| r.sub.subscriber)
    }

    /// The subscription records in first-subscribe order.
    pub open spec fn sub_seq(self) -> Seq<Subscription> {
        self.subs@.map(|i: int, r: SubRow| r.sub)
    }

    /// An empty, uninitialized ledger.
    pub fn new() -> (r: SbSubscription)
        ensures
            r.wf(),
            r.config is None,
            r.plans@ =~= Seq::<PlanRow>::empty(),
            r.subs@ =~= Seq::<SubRow>::empty(),
            r.plan_count == 0,
            r.subscriber_count == 0,
            r.instance_ttl == 0,
    {
        SbSubscription {
            config: None,
            instance_ttl: 0,
            plan_count: 0,
            subscriber_count: 0,
            plans: Vec::new(),
            subs: Vec::new(),
        }
    }

    /// One-shot initialization: records the admin, the payment-token
    /// identity and the treasury. Fails with `AlreadyInitialized` if and
    /// only if a configuration was already set; the three values are
    /// immutable thereafter. The host must have authenticated `admin`.
    pub fn init(&mut self, admin: u64, payment_token: u64, treasury: u64) -> (r: Result<
        (),
        SubscriptionError,
    >)
        requires
            old(self).wf(),
        ensures
            final(self).wf(),
            r == (if old(self).config is Some {
                Err::<(), SubscriptionError>(SubscriptionError::AlreadyInitialized)
            } else {
                Ok::<(), SubscriptionError>(())
            }),
            r is Err ==> *final(self) == *old(self),
            r is Ok ==> final(self).config == Some((Config { admin, payment_token, treasury })),
            r is Ok ==> final(self).instance_ttl == bumped_instance(old(self).instance_ttl),
            final(self).plans@ == old(self).plans@,
            final(self).subs@ == old(self).subs@,
            final(self).plan_count == old(self).plan_count,
            final(self).subscriber_count == old(self).subscriber_count,
    {
        if self.config.is_some() {
            return Err(SubscriptionError::AlreadyInitialized);
        }
        self.config = Some(Config { admin, payment_token, treasury });
        self.instance_ttl = bump_instance_ttl(self.instance_ttl);
        Ok(())
    }

    /// Admin-gated plan creation. The host must have authenticated `caller`;
    /// `caller` must additionally be the configured admin. A zero period, a
    /// non-positive price and a duplicate id are each rejected with their own
    /// error kind; on success the plan is persisted active, appended to the
    /// dense plan index, and the plan counter is incremented.
    pub fn create_plan(
        &mut self,
        caller: u64,
        plan_id: u32,
        period_ledgers: u32,
        price_stroops: i128,
    ) -> (r: Result<(), SubscriptionError>)
        requires
            old(self).wf(),
            old(self).plans@.len() < u32::MAX as int,
        ensures
            final(self).wf(),
            r == (if old(self).config is None {
                Err::<(), SubscriptionError>(SubscriptionError::NotInitialized)
            } else if caller != old(self).cfg().admin {
                Err::<(), SubscriptionError>(SubscriptionError::Unauthorized)
            } else if period_ledgers == 0 {
                Err::<(), SubscriptionError>(SubscriptionError::InvalidPeriod)
            } else if price_stroops <= 0 {
                Err::<(), SubscriptionError>(SubscriptionError::InvalidPrice)
            } else if has_plan(old(self).plans@, plan_id) {
                Err::<(), SubscriptionError>(SubscriptionError::PlanAlreadyExists)
            } else {
                Ok::<(), SubscriptionError>(())
            }),
            r is Err ==> *final(self) == *old(self),
            r is Ok ==> final(self).plans@ == old(self).plans@.push(
                (PlanRow {
                    plan: (Plan { id: plan_id, period_ledgers, price_stroops, active: true }),
                    ttl: PERSISTENT_BUMP_AMOUNT,
                }),
            ),
            r is Ok ==> lookup_plan(final(self).plans@, plan_id) == Some(
                (Plan { id: plan_id, period_ledgers, price_stroops, active: true }),
            ),
            r is Ok ==> forall|id: u32|
                id != plan_id ==> #[trigger] lookup_plan(final(self).plans@, id) == lookup_plan(
                    old(self).plans@,
                    id,
                ),
            r is Ok ==> final(self).plan_count == old(self).plan_count + 1,
            r is Ok ==> final(self).instance_ttl == bumped_instance(old(self).instance_ttl),
            final(self).subs@ == old(self).subs@,
            final(self).config == old(self).config,
            final(self).subscriber_count == old(self).subscriber_count,
    {
        let ghost pre = *self;
        let c = match self.config {
            None => { return Err(SubscriptionError::NotInitialized) },
            Some(c) => c,
        };
        if caller != c.admin {
            return Err(SubscriptionError::Unauthorized);
        }
        if period_ledgers == 0 {
            return Err(SubscriptionError::InvalidPeriod);
        }
        if price_stroops <= 0 {
            return Err(SubscriptionError::InvalidPrice);
        }
        if self.find_plan(plan_id).is_some() {
            return Err(SubscriptionError::PlanAlreadyExists);
        }
        let row = PlanRow {
            plan: Plan { id: plan_id, period_ledgers, price_stroops, active: true },
            ttl: PERSISTENT_BUMP_AMOUNT,
        };
        self.plans.push(row);
        self.plan_count = self.plan_count + 1;
        self.instance_ttl = bump_instance_ttl(self.instance_ttl);
        proof {
            lemma_lookup_plan_push(pre.plans@, row);
        }
        Ok(())
    }

    /// Admin-gated status toggle. Overwrites only the plan's `active` flag;
    /// period and price are untouched. Fails with `PlanNotFound` if and only
    /// if no plan carries `plan_id` (after the admin gate).
    pub fn set_plan_status(&mut self, caller: u64, plan_id: u32, active: bool) -> (r: Result<
        (),
        SubscriptionError,
    >)
        requires
            old(self).wf(),
        ensures
            final(self).wf(),
            r == (if old(self).config is None {
                Err::<(), SubscriptionError>(SubscriptionError::NotInitialized)
            } else if caller != old(self).cfg().admin {
                Err::<(), SubscriptionError>(SubscriptionError::Unauthorized)
            } else if !has_plan(old(self).plans@, plan_id) {
                Err::<(), SubscriptionError>(SubscriptionError::PlanNotFound)
            } else {
                Ok::<(), SubscriptionError>(())
            }),
            r is Err ==> *final(self) == *old(self),
            r is Ok ==> lookup_plan(final(self).plans@, plan_id) == Some(
                (Plan {
                    id: plan_id,
                    period_ledgers: lookup_plan(old(self).plans@, plan_id).unwrap().period_ledgers,
                    price_stroops: lookup_plan(old(self).plans@, plan_id).unwrap().price_stroops,
                    active,
                }),
            ),
            r is Ok ==> forall|id: u32|
                id != plan_id ==> #[trigger] lookup_plan(final(self).plans@, id) == lookup_plan(
                    old(self).plans@,
                    id,
                ),
            r is Ok ==> final(self).plans@ == old(self).plans@.update(
                plan_idx(old(self).plans@, plan_id),
                (PlanRow {
                    plan: (Plan {
                        id: plan_id,
                        period_ledgers: lookup_plan(
                            old(self).plans@,
                            plan_id,
                        ).unwrap().period_ledgers,
                        price_stroops: lookup_plan(
                            old(self).plans@,
                            plan_id,
                        ).unwrap().price_stroops,
                        active,
                    }),
                    ttl: bumped_persistent(
                        old(self).plans@[plan_idx(old(self).plans@, plan_id)].ttl,
                    ),
                }),
            ),
            r is Ok ==> final(self).instance_ttl == bumped_instance(old(self).instance_ttl),
            final(self).subs@ == old(self).subs@,
            final(self).config == old(self).config,
            final(self).plan_count == old(self).plan_count,
            final(self).subscriber_count == old(self).subscriber_count,
    {
        let ghost pre = *self;
        let c = match self.config {
            None => { return Err(SubscriptionError::NotInitialized) },
            Some(c) => c,
        };
        if caller != c.admin {
            return Err(SubscriptionError::Unauthorized);
        }
        let i = match self.find_plan(plan_id) {
            None => { return Err(SubscriptionError::PlanNotFound) },
            Some(i) => i,
        };
        let old_row = self.plans[i];
        let row = PlanRow {
            plan: Plan {
                id: old_row.plan.id,
                period_ledgers: old_row.plan.period_ledgers,
                price_stroops: old_row.plan.price_stroops,
                active,
            },
            ttl: bump_persistent_ttl(old_row.ttl),
        };
        self.plans.set(i, row);
        self.instance_ttl = bump_instance_ttl(self.instance_ttl);
        proof {
            lemma_lookup_plan_update(pre.plans@, i as int, row);
        }
        Ok(())
    }

    /// Self-authorized cancellation (the host must have authenticated
    /// `subscriber`). Clears the record's `active` flag and nothing else;
    /// cancelling an already-cancelled record is an allowed no-op on the
    /// flag. Fails with `SubscriptionNotFound` if and only if the principal
    /// has never subscribed.
    pub fn cancel(&mut self, subscriber: u64) -> (r: Result<(), SubscriptionError>)
        requires
            old(self).wf(),
        ensures
            final(self).wf(),
            r == (if !has_sub(old(self).subs@, subscriber) {
                Err::<(), SubscriptionError>(SubscriptionError::SubscriptionNotFound)
            } else {
                Ok::<(), SubscriptionError>(())
            }),
            r is Err ==> *final(self) == *old(self),
            r is Ok ==> lookup_sub(final(self).subs@, subscriber) == Some(
                (Subscription {
                    subscriber,
                    plan_id: lookup_sub(old(self).subs@, subscriber).unwrap().plan_id,
                    started_ledger: lookup_sub(old(self).subs@, subscriber).unwrap().started_ledger,
                    next_renewal_ledger: lookup_sub(
                        old(self).subs@,
                        subscriber,
                    ).unwrap().next_renewal_ledger,
                    active: false,
                }),
            ),
            r is Ok ==> forall|w: u64|
                w != subscriber ==> #[trigger] lookup_sub(final(self).subs@, w) == lookup_sub(
                    old(self).subs@,
                    w,
                ),
            r is Ok ==> final(self).subs@ == old(self).subs@.update(
                sub_idx(old(self).subs@, subscriber),
                (SubRow {
                    sub: (Subscription {
                        subscriber,
                        plan_id: lookup_sub(old(self).subs@, subscriber).unwrap().plan_id,
                        started_ledger: lookup_sub(
                            old(self).subs@,
                            subscriber,
                        ).unwrap().started_ledger,
                        next_renewal_ledger: lookup_sub(
                            old(self).subs@,
                            subscriber,
                        ).unwrap().next_renewal_ledger,
                        active: false,
                    }),
                    ttl: bumped_persistent(
                        old(self).subs@[sub_idx(old(self).subs@, subscriber)].ttl,
                    ),
                }),
            ),
            final(self).plans@ == old(self).plans@,
            final(self).config == old(self).config,
            final(self).instance_ttl == old(self).instance_ttl,
            final(self).plan_count == old(self).plan_count,
            final(self).subscriber_count == old(self).subscriber_count,
    {
        let ghost pre = *self;
        let i = match self.find_sub(subscriber) {
            None => { return Err(SubscriptionError::SubscriptionNotFound) },
            Some(i) => i,
        };
        let old_row = self.subs[i];
        let row = SubRow {
            sub: Subscription {
                subscriber: old_row.sub.subscriber,
                plan_id: old_row.sub.plan_id,
                started_ledger: old_row.sub.started_ledger,
                next_renewal_ledger: old_row.sub.next_renewal_ledger,
                active: false,
            },
            ttl: bump_persistent_ttl(old_row.ttl),
        };
        self.subs.set(i, row);
        proof {
            lemma_lookup_sub_update(pre.subs@, i as int, row);
        }
        Ok(())
    }

    /// Position of the plan with `id` in the table, or `None` when no such
    /// plan exists.
    fn find_plan(&self, id: u32) -> (r: Option<usize>)
        requires
            self.wf(),
        ensures
            match r {
                Some(i) => i < self.plans@.len() && plan_idx(self.plans@, id) == i as int
                    && has_plan(self.plans@, id) && self.plans@[i as int].plan.id == id,
                None => !has_plan(self.plans@, id),
            },
    {
        let n = self.plans.len();
        let mut i: usize = 0;
        while i < n
            invariant
                self.wf(),
                n == self.plans@.len(),
                i <= n,
                forall|j: int| 0 <= j < i ==> (#[trigger] self.plans@[j]).plan.id != id,
            decreases n - i,
        {
            if self.plans[i].plan.id == id {
                proof {
                    assert(has_plan(self.plans@, id));
                    let k = plan_idx(self.plans@, id);
                    assert(0 <= k < self.plans@.len() && self.plans@[k].plan.id == id);
                    assert(k == i as int);
                }
                return Some(i);
            }
            i += 1;
        }
        None
    }

    /// Position of the row belonging to `subscriber`, or `None` when the
    /// principal has never subscribed.
    fn find_sub(&self, subscriber: u64) -> (r: Option<usize>)
        requires
            self.wf(),
        ensures
            match r {
                Some(i) => i < self.subs@.len() && sub_idx(self.subs@, subscriber) == i as int
                    && has_sub(self.subs@, subscriber) && self.subs@[i as int].sub.subscriber
                    == subscriber,
                None => !has_sub(self.subs@, subscriber),
            },
    {
        let n = self.subs.len();
        let mut i: usize = 0;
        while i < n
            invariant
                self.wf(),
                n == self.subs@.len(),
                i <= n,
                forall|j: int| 0 <= j < i ==> (#[trigger] self.subs@[j]).sub.subscriber != subscriber,
            decreases n - i,
        {
            if self.subs[i].sub.subscriber == subscriber {
                proof {
                    assert(has_sub(self.subs@, subscriber));
                    let k = sub_idx(self.subs@, subscriber);
                    assert(0 <= k < self.subs@.len() && self.subs@[k].sub.subscriber == subscriber);
                    assert(k == i as int);
                }
                return Some(i);
            }
            i += 1;
        }
        None
    }

    /// The condition under which `subscribe` succeeds and charges: the plan
    /// exists and is active, the contract is initialized, and the principal
    /// holds no active record (no record at all, or a cancelled one).
    pub open spec fn subscribe_admitted(self, subscriber: u64, plan_id: u32) -> bool {
        &&& has_plan(self.plans@, plan_id)
        &&& lookup_plan(self.plans@, plan_id).unwrap().active
        &&& self.config is Some
        &&& !(has_sub(self.subs@, subscriber) && lookup_sub(self.subs@, subscriber).unwrap().active)
    }

    /// The record a successful `subscribe` writes: started now, first
    /// renewal due one period later, active.
    pub open spec fn fresh_subscription(
        subscriber: u64,
        plan_id: u32,
        started: u32,
        period: u32,
    ) -> Subscription {
        Subscription {
            subscriber,
            plan_id,
            started_ledger: started,
            next_renewal_ledger: (started + period) as u32,
            active: true,
        }
    }

    /// The condition under which `renew` succeeds and charges: the record
    /// exists and is active, its plan exists and is active, the due tick has
    /// been reached, and the contract is initialized.
    pub open spec fn renew_admitted(self, subscriber: u64, current_ledger: u32) -> bool {
        &&& has_sub(self.subs@, subscriber)
        &&& lookup_sub(self.subs@, subscriber).unwrap().active
        &&& has_plan(self.plans@, lookup_sub(self.subs@, subscriber).unwrap().plan_id)
        &&& lookup_plan(
            self.plans@,
            lookup_sub(self.subs@, subscriber).unwrap().plan_id,
        ).unwrap().active
        &&& current_ledger >= lookup_sub(self.subs@, subscriber).unwrap().next_renewal_ledger
        &&& self.config is Some
    }

    /// First-time subscription or re-subscription after a cancel. The host
    /// must have authenticated `subscriber` and supplies the logical clock
    /// value `current_ledger`. The returned charge is the plan's price, from
    /// the subscriber to the treasury, in direct mode: the subscriber is
    /// present and signing this very call. Re-subscribing while a record is
    /// still active is rejected; a cancelled record is overwritten with a
    /// fresh one at the current clock value. A principal is appended to the
    /// subscriber index only the first time it ever subscribes.
    pub fn subscribe(&mut self, subscriber: u64, plan_id: u32, current_ledger: u32) -> (r: Result<
        Charge,
        SubscriptionError,
    >)
        requires
            old(self).wf(),
            old(self).subs@.len() < u32::MAX as int,
            old(self).subscribe_admitted(subscriber, plan_id) ==> current_ledger as int
                + lookup_plan(old(self).plans@, plan_id).unwrap().period_ledgers as int
                <= u32::MAX as int,
        ensures
            final(self).wf(),
            r == (if !has_plan(old(self).plans@, plan_id) {
                Err::<Charge, SubscriptionError>(SubscriptionError::PlanNotFound)
            } else if !lookup_plan(old(self).plans@, plan_id).unwrap().active {
                Err::<Charge, SubscriptionError>(SubscriptionError::PlanInactive)
            } else if old(self).config is None {
                Err::<Charge, SubscriptionError>(SubscriptionError::NotInitialized)
            } else if has_sub(old(self).subs@, subscriber) && lookup_sub(
                old(self).subs@,
                subscriber,
            ).unwrap().active {
                Err::<Charge, SubscriptionError>(SubscriptionError::SubscriptionAlreadyExists)
            } else {
                Ok::<Charge, SubscriptionError>(
                    (Charge {
                        payer: subscriber,
                        payee: old(self).cfg().treasury,
                        amount: lookup_plan(old(self).plans@, plan_id).unwrap().price_stroops,
                        mode: PaymentMode::Direct,
                    }),
                )
            }),
            r is Err ==> *final(self) == *old(self),
            r is Ok ==> lookup_sub(final(self).subs@, subscriber) == Some(
                Self::fresh_subscription(
                    subscriber,
                    plan_id,
                    current_ledger,
                    lookup_plan(old(self).plans@, plan_id).unwrap().period_ledgers,
                ),
            ),
            r is Ok ==> lookup_sub(final(self).subs@, subscriber).unwrap().next_renewal_ledger
                == current_ledger + lookup_plan(old(self).plans@, plan_id).unwrap().period_ledgers,
            r is Ok ==> forall|w: u64|
                w != subscriber ==> #[trigger] lookup_sub(final(self).subs@, w) == lookup_sub(
                    old(self).subs@,
                    w,
                ),
            r is Ok ==> (if has_sub(old(self).subs@, subscriber) {
                final(self).subs@ == old(self).subs@.update(
                    sub_idx(old(self).subs@, subscriber),
                    (SubRow {
                        sub: Self::fresh_subscription(
                            subscriber,
                            plan_id,
                            current_ledger,
                            lookup_plan(old(self).plans@, plan_id).unwrap().period_ledgers,
                        ),
                        ttl: bumped_persistent(
                            old(self).subs@[sub_idx(old(self).subs@, subscriber)].ttl,
                        ),
                    }),
                ) && final(self).subscriber_count == old(self).subscriber_count
            } else {
                final(self).subs@ == old(self).subs@.push(
                    (SubRow {
                        sub: Self::fresh_subscription(
                            subscriber,
                            plan_id,
                            current_ledger,
                            lookup_plan(old(self).plans@, plan_id).unwrap().period_ledgers,
                        ),
                        ttl: PERSISTENT_BUMP_AMOUNT,
                    }),
                ) && final(self).subscriber_count == old(self).subscriber_count + 1
            }),
            r is Ok ==> final(self).plans@ == old(self).plans@.update(
                plan_idx(old(self).plans@, plan_id),
                (PlanRow {
                    plan: lookup_plan(old(self).plans@, plan_id).unwrap(),
                    ttl: bumped_persistent(
                        old(self).plans@[plan_idx(old(self).plans@, plan_id)].ttl,
                    ),
                }),
            ),
            r is Ok ==> final(self).instance_ttl == bumped_instance(old(self).instance_ttl),
            final(self).plan_seq() == old(self).plan_seq(),
            forall|id: u32|
                #[trigger] lookup_plan(final(self).plans@, id) == lookup_plan(old(self).plans@, id),
            forall|id: u32|
                #[trigger] has_plan(final(self).plans@, id) == has_plan(old(self).plans@, id),
            final(self).config == old(self).config,
            final(self).plan_count == old(self).plan_count,
    {
        let ghost pre = *self;
        let plan_i = match self.find_plan(plan_id) {
            None => { return Err(SubscriptionError::PlanNotFound) },
            Some(i) => i,
        };
        let plan = self.plans[plan_i].plan;
        if !plan.active {
            return Err(SubscriptionError::PlanInactive);
        }
        let c = match self.config {
            None => { return Err(SubscriptionError::NotInitialized) },
            Some(c) => c,
        };
        let existing = self.find_sub(subscriber);
        if let Some(si) = existing {
            if self.subs[si].sub.active {
                return Err(SubscriptionError::SubscriptionAlreadyExists);
            }
        }
        proof {
            assert(pre.subscribe_admitted(subscriber, plan_id));
        }
        let new_sub = Subscription {
            subscriber,
            plan_id,
            started_ledger: current_ledger,
            next_renewal_ledger: current_ledger + plan.period_ledgers,
            active: true,
        };
        match existing {
            Some(si) => {
                let row = SubRow { sub: new_sub, ttl: bump_persistent_ttl(self.subs[si].ttl) };
                self.subs.set(si, row);
                proof {
                    lemma_lookup_sub_update(pre.subs@, si as int, row);
                }
            },
            None => {
                let row = SubRow { sub: new_sub, ttl: PERSISTENT_BUMP_AMOUNT };
                self.subs.push(row);
                self.subscriber_count = self.subscriber_count + 1;
                proof {
                    lemma_lookup_sub_push(pre.subs@, row);
                }
            },
        }
        let plan_row = PlanRow { plan, ttl: bump_persistent_ttl(self.plans[plan_i].ttl) };
        self.plans.set(plan_i, plan_row);
        self.instance_ttl = bump_instance_ttl(self.instance_ttl);
        proof {
            lemma_lookup_plan_update(pre.plans@, plan_i as int, plan_row);
            assert(self.plan_seq() =~= pre.plan_seq());
            assert forall|id: u32| #[trigger] lookup_plan(self.plans@, id) == lookup_plan(
                pre.plans@,
                id,
            ) by {
                if id == plan_id {
                    assert(lookup_plan(self.plans@, id) == Some(plan_row.plan));
                }
            }
        }
        Ok(Charge {
            payer: subscriber,
            payee: c.treasury,
            amount: plan.price_stroops,
            mode: PaymentMode::Direct,
        })
    }

    /// Renewal of a due subscription. Deliberately open to any caller — a
    /// third party or a bot may trigger it — because the charge is made in
    /// delegated mode: it only moves funds if the subscriber pre-granted the
    /// contract a sufficient allowance on the payment ledger. Renewal is
    /// never early: a call before the due tick fails `RenewTooEarly`. On
    /// success the due tick advances by exactly one period from the old due
    /// tick (an additive schedule that catches up deterministically, not
    /// `now + period`), and the charge is the plan's price from the
    /// subscriber to the treasury.
    pub fn renew(&mut self, subscriber: u64, current_ledger: u32) -> (r: Result<
        Charge,
        SubscriptionError,
    >)
        requires
            old(self).wf(),
            old(self).renew_admitted(subscriber, current_ledger) ==> lookup_sub(
                old(self).subs@,
                subscriber,
            ).unwrap().next_renewal_ledger as int + lookup_plan(
                old(self).plans@,
                lookup_sub(old(self).subs@, subscriber).unwrap().plan_id,
            ).unwrap().period_ledgers as int <= u32::MAX as int,
        ensures
            final(self).wf(),
            r == (if !has_sub(old(self).subs@, subscriber) {
                Err::<Charge, SubscriptionError>(SubscriptionError::SubscriptionNotFound)
            } else if !lookup_sub(old(self).subs@, subscriber).unwrap().active {
                Err::<Charge, SubscriptionError>(SubscriptionError::SubscriptionCancelled)
            } else if !has_plan(
                old(self).plans@,
                lookup_sub(old(self).subs@, subscriber).unwrap().plan_id,
            ) {
                Err::<Charge, SubscriptionError>(SubscriptionError::PlanNotFound)
            } else if !lookup_plan(
                old(self).plans@,
                lookup_sub(old(self).subs@, subscriber).unwrap().plan_id,
            ).unwrap().active {
                Err::<Charge, SubscriptionError>(SubscriptionError::PlanInactive)
            } else if current_ledger < lookup_sub(
                old(self).subs@,
                subscriber,
            ).unwrap().next_renewal_ledger {
                Err::<Charge, SubscriptionError>(SubscriptionError::RenewTooEarly)
            } else if old(self).config is None {
                Err::<Charge, SubscriptionError>(SubscriptionError::NotInitialized)
            } else {
                Ok::<Charge, SubscriptionError>(
                    (Charge {
                        payer: subscriber,
                        payee: old(self).cfg().treasury,
                        amount: lookup_plan(
                            old(self).plans@,
                            lookup_sub(old(self).subs@, subscriber).unwrap().plan_id,
                        ).unwrap().price_stroops,
                        mode: PaymentMode::Delegated,
                    }),
                )
            }),
            r is Err ==> *final(self) == *old(self),
            r is Ok ==> lookup_sub(final(self).subs@, subscriber) == Some(
                (Subscription {
                    subscriber,
                    plan_id: lookup_sub(old(self).subs@, subscriber).unwrap().plan_id,
                    started_ledger: lookup_sub(old(self).subs@, subscriber).unwrap().started_ledger,
                    next_renewal_ledger: (lookup_sub(
                        old(self).subs@,
                        subscriber,
                    ).unwrap().next_renewal_ledger + lookup_plan(
                        old(self).plans@,
                        lookup_sub(old(self).subs@, subscriber).unwrap().plan_id,
                    ).unwrap().period_ledgers) as u32,
                    active: true,
                }),
            ),
            r is Ok ==> lookup_sub(final(self).subs@, subscriber).unwrap().next_renewal_ledger
                == lookup_sub(old(self).subs@, subscriber).unwrap().next_renewal_ledger
                + lookup_plan(
                old(self).plans@,
                lookup_sub(old(self).subs@, subscriber).unwrap().plan_id,
            ).unwrap().period_ledgers,
            r is Ok ==> forall|w: u64|
                w != subscriber ==> #[trigger] lookup_sub(final(self).subs@, w) == lookup_sub(
                    old(self).subs@,
                    w,
                ),
            r is Ok ==> final(self).subs@ == old(self).subs@.update(
                sub_idx(old(self).subs@, subscriber),
                (SubRow {
                    sub: (Subscription {
                        subscriber,
                        plan_id: lookup_sub(old(self).subs@, subscriber).unwrap().plan_id,
                        started_ledger: lookup_sub(
                            old(self).subs@,
                            subscriber,
                        ).unwrap().started_ledger,
                        next_renewal_ledger: (lookup_sub(
                            old(self).subs@,
                            subscriber,
                        ).unwrap().next_renewal_ledger + lookup_plan(
                            old(self).plans@,
                            lookup_sub(old(self).subs@, subscriber).unwrap().plan_id,
                        ).unwrap().period_ledgers) as u32,
                        active: true,
                    }),
                    ttl: bumped_persistent(
                        old(self).subs@[sub_idx(old(self).subs@, subscriber)].ttl,
                    ),
                }),
            ),
            r is Ok ==> final(self).plans@ == old(self).plans@.update(
                plan_idx(
                    old(self).plans@,
                    lookup_sub(old(self).subs@, subscriber).unwrap().plan_id,
                ),
                (PlanRow {
                    plan: lookup_plan(
                        old(self).plans@,
                        lookup_sub(old(self).subs@, subscriber).unwrap().plan_id,
                    ).unwrap(),
                    ttl: bumped_persistent(
                        old(self).plans@[plan_idx(
                            old(self).plans@,
                            lookup_sub(old(self).subs@, subscriber).unwrap().plan_id,
                        )].ttl,
                    ),
                }),
            ),
            r is Ok ==> final(self).instance_ttl == bumped_instance(old(self).instance_ttl),
            final(self).plan_seq() == old(self).plan_seq(),
            forall|id: u32|
                #[trigger] lookup_plan(final(self).plans@, id) == lookup_plan(old(self).plans@, id),
            forall|id: u32|
                #[trigger] has_plan(final(self).plans@, id) == has_plan(old(self).plans@, id),
            final(self).config == old(self).config,
            final(self).plan_count == old(self).plan_count,
            final(self).subscriber_count == old(self).subscriber_count,
    {
        let ghost pre = *self;
        let si = match self.find_sub(subscriber) {
            None => { return Err(SubscriptionError::SubscriptionNotFound) },
            Some(i) => i,
        };
        let sub = self.subs[si].sub;
        if !sub.active {
            return Err(SubscriptionError::SubscriptionCancelled);
        }
        let plan_i = match self.find_plan(sub.plan_id) {
            None => { return Err(SubscriptionError::PlanNotFound) },
            Some(i) => i,
        };
        let plan = self.plans[plan_i].plan;
        if !plan.active {
            return Err(SubscriptionError::PlanInactive);
        }
        if current_ledger < sub.next_renewal_ledger {
            return Err(SubscriptionError::RenewTooEarly);
        }
        let c = match self.config {
            None => { return Err(SubscriptionError::NotInitialized) },
            Some(c) => c,
        };
        proof {
            assert(pre.renew_admitted(subscriber, current_ledger));
        }
        let renewed = Subscription {
            subscriber: sub.subscriber,
            plan_id: sub.plan_id,
            started_ledger: sub.started_ledger,
            next_renewal_ledger: sub.next_renewal_ledger + plan.period_ledgers,
            active: true,
        };
        let row = SubRow { sub: renewed, ttl: bump_persistent_ttl(self.subs[si].ttl) };
        self.subs.set(si, row);
        let plan_row = PlanRow { plan, ttl: bump_persistent_ttl(self.plans[plan_i].ttl) };
        self.plans.set(plan_i, plan_row);
        self.instance_ttl = bump_instance_ttl(self.instance_ttl);
        proof {
            lemma_lookup_sub_update(pre.subs@, si as int, row);
            lemma_lookup_plan_update(pre.plans@, plan_i as int, plan_row);
            assert(self.plan_seq() =~= pre.plan_seq());
            assert forall|id: u32| #[trigger] lookup_plan(self.plans@, id) == lookup_plan(
                pre.plans@,
                id,
            ) by {
                if id == sub.plan_id {
                    assert(lookup_plan(self.plans@, id) == Some(plan_row.plan));
                }
            }
        }
        Ok(Charge {
            payer: subscriber,
            payee: c.treasury,
            amount: plan.price_stroops,
            mode: PaymentMode::Delegated,
        })
    }

    /// Returns the plan record, or fails with `PlanNotFound` if and only if
    /// no plan carries `plan_id`. Touching the record bumps its lifetime;
    /// nothing else changes.
    pub fn get_plan(&mut self, plan_id: u32) -> (r: Result<Plan, SubscriptionError>)
        requires
            old(self).wf(),
        ensures
            final(self).wf(),
            r == (match lookup_plan(old(self).plans@, plan_id) {
                Some(p) => Ok::<Plan, SubscriptionError>(p),
                None => Err::<Plan, SubscriptionError>(SubscriptionError::PlanNotFound),
            }),
            r is Err ==> *final(self) == *old(self),
            r is Ok ==> final(self).plans@ == old(self).plans@.update(
                plan_idx(old(self).plans@, plan_id),
                (PlanRow {
                    plan: old(self).plans@[plan_idx(old(self).plans@, plan_id)].plan,
                    ttl: bumped_persistent(
                        old(self).plans@[plan_idx(old(self).plans@, plan_id)].ttl,
                    ),
                }),
            ),
            final(self).plan_seq() == old(self).plan_seq(),
            forall|id: u32|
                #[trigger] lookup_plan(final(self).plans@, id) == lookup_plan(old(self).plans@, id),
            forall|id: u32|
                #[trigger] has_plan(final(self).plans@, id) == has_plan(old(self).plans@, id),
            final(self).subs@ == old(self).subs@,
            final(self).config == old(self).config,
            final(self).instance_ttl == old(self).instance_ttl,
            final(self).plan_count == old(self).plan_count,
            final(self).subscriber_count == old(self).subscriber_count,
    {
        let ghost pre = *self;
        match self.find_plan(plan_id) {
            None => Err(SubscriptionError::PlanNotFound),
            Some(i) => {
                let row = self.plans[i];
                let bumped = PlanRow { plan: row.plan, ttl: bump_persistent_ttl(row.ttl) };
                self.plans.set(i, bumped);
                proof {
                    lemma_lookup_plan_update(pre.plans@, i as int, bumped);
                    assert(self.plan_seq() =~= pre.plan_seq());
                    assert forall|id: u32| #[trigger] lookup_plan(self.plans@, id) == lookup_plan(
                        pre.plans@,
                        id,
                    ) by {
                        if id == plan_id {
                            assert(lookup_plan(self.plans@, id) == Some(bumped.plan));
                        }
                    }
                }
                Ok(row.plan)
            },
        }
    }

    /// Returns the subscription record, or fails with `SubscriptionNotFound`
    /// if and only if the principal has never subscribed. Touching the
    /// record bumps its lifetime; nothing else changes.
    pub fn get_subscription(&mut self, subscriber: u64) -> (r: Result<
        Subscription,
        SubscriptionError,
    >)
        requires
            old(self).wf(),
        ensures
            final(self).wf(),
            r == (match lookup_sub(old(self).subs@, subscriber) {
                Some(s) => Ok::<Subscription, SubscriptionError>(s),
                None => Err::<Subscription, SubscriptionError>(
                    SubscriptionError::SubscriptionNotFound,
                ),
            }),
            r is Err ==> *final(self) == *old(self),
            r is Ok ==> final(self).subs@ == old(self).subs@.update(
                sub_idx(old(self).subs@, subscriber),
                (SubRow {
                    sub: old(self).subs@[sub_idx(old(self).subs@, subscriber)].sub,
                    ttl: bumped_persistent(
                        old(self).subs@[sub_idx(old(self).subs@, subscriber)].ttl,
                    ),
                }),
            ),
            final(self).sub_seq() == old(self).sub_seq(),
            forall|w: u64|
                #[trigger] lookup_sub(final(self).subs@, w) == lookup_sub(old(self).subs@, w),
            forall|w: u64| #[trigger] has_sub(final(self).subs@, w) == has_sub(old(self).subs@, w),
            final(self).plans@ == old(self).plans@,
            final(self).config == old(self).config,
            final(self).instance_ttl == old(self).instance_ttl,
            final(self).plan_count == old(self).plan_count,
            final(self).subscriber_count == old(self).subscriber_count,
    {
        let ghost pre = *self;
        match self.find_sub(subscriber) {
            None => Err(SubscriptionError::SubscriptionNotFound),
            Some(i) => {
                let row = self.subs[i];
                let bumped = SubRow { sub: row.sub, ttl: bump_persistent_ttl(row.ttl) };
                self.subs.set(i, bumped);
                proof {
                    lemma_lookup_sub_update(pre.subs@, i as int, bumped);
                    assert(self.sub_seq() =~= pre.sub_seq());
                    assert forall|w: u64| #[trigger] lookup_sub(self.subs@, w) == lookup_sub(
                        pre.subs@,
                        w,
                    ) by {
                        if w == subscriber {
                            assert(lookup_sub(self.subs@, w) == Some(bumped.sub));
                        }
                    }
                    assert forall|w: u64| #[trigger] has_sub(self.subs@, w) == has_sub(
                        pre.subs@,
                        w,
                    ) by {
                        assert(lookup_sub(self.subs@, w) == lookup_sub(pre.subs@, w));
                    }
                }
                Ok(row.sub)
            },
        }
    }
}

} // verus!
