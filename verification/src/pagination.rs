//! The pagination reader: three read-only listing operations over the dense
//! index tables. A limit above [`MAX_PAGE_SIZE`] is rejected; a zero limit
//! or an offset at or past the end yields an empty page; otherwise the page
//! is the index range `[offset, min(count, offset + limit))` in insertion
//! order. Touched rows have their lifetimes bumped; no value changes.

use crate::contract::SbSubscription;
use crate::errors::SubscriptionError;
use crate::model::page_of;
use crate::model::{lemma_lookup_plan_update, lemma_lookup_sub_update};
use crate::records::{Plan, PlanRow, SubRow, Subscription};
use crate::storage::{bump_instance_ttl, bump_persistent_ttl};
use crate::storage::{ttl_evolved, INSTANCE_BUMP_AMOUNT, INSTANCE_LIFETIME_THRESHOLD};
use crate::storage::{MAX_PAGE_SIZE, PERSISTENT_BUMP_AMOUNT, PERSISTENT_LIFETIME_THRESHOLD};
use vstd::pervasive::VecAdditionalExecFns;
use vstd::prelude::*;

verus! {

impl SbSubscription {
    /// One page of the plan catalog, in creation order.
    pub fn list_plans(&mut self, offset: u32, limit: u32) -> (r: Result<
        Vec<Plan>,
        SubscriptionError,
    >)
        requires
            old(self).wf(),
        ensures
            final(self).wf(),
            r is Err <==> limit > MAX_PAGE_SIZE,
            r is Err ==> r == Err::<Vec<Plan>, SubscriptionError>(SubscriptionError::InvalidPageSize)
                && *final(self) == *old(self),
            r is Ok ==> r->Ok_0@ == page_of(old(self).plan_seq(), offset, limit),
            final(self).plan_seq() == old(self).plan_seq(),
            final(self).subs@ == old(self).subs@,
            final(self).config == old(self).config,
            final(self).plan_count == old(self).plan_count,
            final(self).subscriber_count == old(self).subscriber_count,
            ttl_evolved(
                old(self).instance_ttl,
                final(self).instance_ttl,
                INSTANCE_LIFETIME_THRESHOLD,
                INSTANCE_BUMP_AMOUNT,
            ),
            forall|i: int|
                0 <= i < old(self).plans@.len() ==> ttl_evolved(
                    old(self).plans@[i].ttl,
                    (#[trigger] final(self).plans@[i]).ttl,
                    PERSISTENT_LIFETIME_THRESHOLD,
                    PERSISTENT_BUMP_AMOUNT,
                ),
    {
        let ghost pre = *self;
        if limit > MAX_PAGE_SIZE {
            return Err(SubscriptionError::InvalidPageSize);
        }
        let mut result: Vec<Plan> = Vec::new();
        if limit == 0 {
            proof {
                assert(result@ =~= page_of(pre.plan_seq(), offset, limit));
            }
            return Ok(result);
        }
        let plan_count = self.plan_count;
        self.instance_ttl = bump_instance_ttl(self.instance_ttl);
        if offset >= plan_count {
            proof {
                assert(result@ =~= page_of(pre.plan_seq(), offset, limit));
            }
            return Ok(result);
        }
        let end = if plan_count - offset < limit {
            plan_count
        } else {
            offset + limit
        };
        let mut index = offset;
        while index < end
            invariant
                self.wf(),
                offset <= index <= end <= plan_count,
                plan_count == self.plans@.len(),
                limit <= MAX_PAGE_SIZE,
                end == if plan_count - offset < limit {
                    plan_count
                } else {
                    (offset + limit) as u32
                },
                self.plan_seq() == pre.plan_seq(),
                self.subs@ == pre.subs@,
                self.config == pre.config,
                self.plan_count == pre.plan_count,
                self.subscriber_count == pre.subscriber_count,
                ttl_evolved(
                    pre.instance_ttl,
                    self.instance_ttl,
                    INSTANCE_LIFETIME_THRESHOLD,
                    INSTANCE_BUMP_AMOUNT,
                ),
                forall|i: int|
                    0 <= i < pre.plans@.len() ==> ttl_evolved(
                        pre.plans@[i].ttl,
                        (#[trigger] self.plans@[i]).ttl,
                        PERSISTENT_LIFETIME_THRESHOLD,
                        PERSISTENT_BUMP_AMOUNT,
                    ),
                result@ == self.plan_seq().subrange(offset as int, index as int),
            decreases end - index,
        {
            let ghost loop_pre = *self;
            let i = index as usize;
            let row = self.plans[i];
            result.push(row.plan);
            let bumped = PlanRow { plan: row.plan, ttl: bump_persistent_ttl(row.ttl) };
            self.plans.set(i, bumped);
            proof {
                lemma_lookup_plan_update(loop_pre.plans@, i as int, bumped);
                assert(self.plan_seq() =~= loop_pre.plan_seq());
                assert(result@ =~= self.plan_seq().subrange(offset as int, index as int + 1));
            }
            index += 1;
        }
        proof {
            assert(result@ =~= page_of(pre.plan_seq(), offset, limit));
        }
        Ok(result)
    }

    /// One page of the subscriber index, in first-subscribe order.
    pub fn list_subscribers(&mut self, offset: u32, limit: u32) -> (r: Result<
        Vec<u64>,
        SubscriptionError,
    >)
        requires
            old(self).wf(),
        ensures
            final(self).wf(),
            r is Err <==> limit > MAX_PAGE_SIZE,
            r is Err ==> r == Err::<Vec<u64>, SubscriptionError>(SubscriptionError::InvalidPageSize)
                && *final(self) == *old(self),
            r is Ok ==> r->Ok_0@ == page_of(old(self).subscriber_seq(), offset, limit),
            final(self).sub_seq() == old(self).sub_seq(),
            final(self).plans@ == old(self).plans@,
            final(self).config == old(self).config,
            final(self).plan_count == old(self).plan_count,
            final(self).subscriber_count == old(self).subscriber_count,
            ttl_evolved(
                old(self).instance_ttl,
                final(self).instance_ttl,
                INSTANCE_LIFETIME_THRESHOLD,
                INSTANCE_BUMP_AMOUNT,
            ),
            forall|i: int|
                0 <= i < old(self).subs@.len() ==> ttl_evolved(
                    old(self).subs@[i].ttl,
                    (#[trigger] final(self).subs@[i]).ttl,
                    PERSISTENT_LIFETIME_THRESHOLD,
                    PERSISTENT_BUMP_AMOUNT,
                ),
    {
        let ghost pre = *self;
        if limit > MAX_PAGE_SIZE {
            return Err(SubscriptionError::InvalidPageSize);
        }
        let mut result: Vec<u64> = Vec::new();
        if limit == 0 {
            proof {
                assert(result@ =~= page_of(pre.subscriber_seq(), offset, limit));
            }
            return Ok(result);
        }
        let subscriber_count = self.subscriber_count;
        self.instance_ttl = bump_instance_ttl(self.instance_ttl);
        if offset >= subscriber_count {
            proof {
                assert(result@ =~= page_of(pre.subscriber_seq(), offset, limit));
            }
            return Ok(result);
        }
        let end = if subscriber_count - offset < limit {
            subscriber_count
        } else {
            offset + limit
        };
        let mut index = offset;
        while index < end
            invariant
                self.wf(),
                offset <= index <= end <= subscriber_count,
                subscriber_count == self.subs@.len(),
                limit <= MAX_PAGE_SIZE,
                end == if subscriber_count - offset < limit {
                    subscriber_count
                } else {
                    (offset + limit) as u32
                },
                self.sub_seq() == pre.sub_seq(),
                self.subscriber_seq() == pre.subscriber_seq(),
                self.plans@ == pre.plans@,
                self.config == pre.config,
                self.plan_count == pre.plan_count,
                self.subscriber_count == pre.subscriber_count,
                ttl_evolved(
                    pre.instance_ttl,
                    self.instance_ttl,
                    INSTANCE_LIFETIME_THRESHOLD,
                    INSTANCE_BUMP_AMOUNT,
                ),
                forall|i: int|
                    0 <= i < pre.subs@.len() ==> ttl_evolved(
                        pre.subs@[i].ttl,
                        (#[trigger] self.subs@[i]).ttl,
                        PERSISTENT_LIFETIME_THRESHOLD,
                        PERSISTENT_BUMP_AMOUNT,
                    ),
                result@ == self.subscriber_seq().subrange(offset as int, index as int),
            decreases end - index,
        {
            let ghost loop_pre = *self;
            let i = index as usize;
            let row = self.subs[i];
            result.push(row.sub.subscriber);
            let bumped = SubRow { sub: row.sub, ttl: bump_persistent_ttl(row.ttl) };
            self.subs.set(i, bumped);
            proof {
                lemma_lookup_sub_update(loop_pre.subs@, i as int, bumped);
                assert(self.sub_seq() =~= loop_pre.sub_seq());
                assert(self.subscriber_seq() =~= loop_pre.subscriber_seq());
                assert(result@ =~= self.subscriber_seq().subrange(
                    offset as int,
                    index as int + 1,
                ));
            }
            index += 1;
        }
        proof {
            assert(result@ =~= page_of(pre.subscriber_seq(), offset, limit));
        }
        Ok(result)
    }

    /// One page of the subscription records, joined through the subscriber
    /// index: the same order as `list_subscribers`.
    pub fn list_subscriptions(&mut self, offset: u32, limit: u32) -> (r: Result<
        Vec<Subscription>,
        SubscriptionError,
    >)
        requires
            old(self).wf(),
        ensures
            final(self).wf(),
            r is Err <==> limit > MAX_PAGE_SIZE,
            r is Err ==> r == Err::<Vec<Subscription>, SubscriptionError>(
                SubscriptionError::InvalidPageSize,
            ) && *final(self) == *old(self),
            r is Ok ==> r->Ok_0@ == page_of(old(self).sub_seq(), offset, limit),
            final(self).sub_seq() == old(self).sub_seq(),
            final(self).plans@ == old(self).plans@,
            final(self).config == old(self).config,
            final(self).plan_count == old(self).plan_count,
            final(self).subscriber_count == old(self).subscriber_count,
            ttl_evolved(
                old(self).instance_ttl,
                final(self).instance_ttl,
                INSTANCE_LIFETIME_THRESHOLD,
                INSTANCE_BUMP_AMOUNT,
            ),
            forall|i: int|
                0 <= i < old(self).subs@.len() ==> ttl_evolved(
                    old(self).subs@[i].ttl,
                    (#[trigger] final(self).subs@[i]).ttl,
                    PERSISTENT_LIFETIME_THRESHOLD,
                    PERSISTENT_BUMP_AMOUNT,
                ),
    {
        let ghost pre = *self;
        if limit > MAX_PAGE_SIZE {
            return Err(SubscriptionError::InvalidPageSize);
        }
        let mut result: Vec<Subscription> = Vec::new();
        if limit == 0 {
            proof {
                assert(result@ =~= page_of(pre.sub_seq(), offset, limit));
            }
            return Ok(result);
        }
        let subscriber_count = self.subscriber_count;
        self.instance_ttl = bump_instance_ttl(self.instance_ttl);
        if offset >= subscriber_count {
            proof {
                assert(result@ =~= page_of(pre.sub_seq(), offset, limit));
            }
            return Ok(result);
        }
        let end = if subscriber_count - offset < limit {
            subscriber_count
        } else {
            offset + limit
        };
        let mut index = offset;
        while index < end
            invariant
                self.wf(),
                offset <= index <= end <= subscriber_count,
                subscriber_count == self.subs@.len(),
                limit <= MAX_PAGE_SIZE,
                end == if subscriber_count - offset < limit {
                    subscriber_count
                } else {
                    (offset + limit) as u32
                },
                self.sub_seq() == pre.sub_seq(),
                self.plans@ == pre.plans@,
                self.config == pre.config,
                self.plan_count == pre.plan_count,
                self.subscriber_count == pre.subscriber_count,
                ttl_evolved(
                    pre.instance_ttl,
                    self.instance_ttl,
                    INSTANCE_LIFETIME_THRESHOLD,
                    INSTANCE_BUMP_AMOUNT,
                ),
                forall|i: int|
                    0 <= i < pre.subs@.len() ==> ttl_evolved(
                        pre.subs@[i].ttl,
                        (#[trigger] self.subs@[i]).ttl,
                        PERSISTENT_LIFETIME_THRESHOLD,
                        PERSISTENT_BUMP_AMOUNT,
                    ),
                result@ == self.sub_seq().subrange(offset as int, index as int),
            decreases end - index,
        {
            let ghost loop_pre = *self;
            let i = index as usize;
            let row = self.subs[i];
            result.push(row.sub);
            let bumped = SubRow { sub: row.sub, ttl: bump_persistent_ttl(row.ttl) };
            self.subs.set(i, bumped);
            proof {
                lemma_lookup_sub_update(loop_pre.subs@, i as int, bumped);
                assert(self.sub_seq() =~= loop_pre.sub_seq());
                assert(result@ =~= self.sub_seq().subrange(offset as int, index as int + 1));
            }
            index += 1;
        }
        proof {
            assert(result@ =~= page_of(pre.sub_seq(), offset, limit));
        }
        Ok(result)
    }
}

} // verus!
