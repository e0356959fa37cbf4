//! Laws that relate several operations to one another. The pagination laws
//! speak of `page_of`, which every listing operation's contract returns; the
//! lifecycle laws connect the contracts of `create_plan`, `get_plan`,
//! `cancel` and `subscribe`.

use crate::contract::SbSubscription;
use crate::model::{has_plan, has_sub, lookup_plan, lookup_sub, page_of, plans_unique};
use crate::model::lemma_lookup_plan_push;
use crate::records::{Plan, PlanRow};
use vstd::prelude::*;

verus! {

/// For every valid plan (a positive period, a positive price, a fresh id),
/// the record that `create_plan` appends is exactly the record a lookup for
/// that id — and hence `get_plan`, whose result is that lookup — returns:
/// active, with the given period and price. And since the id is now taken,
/// a second `create_plan` with the same id meets the `PlanAlreadyExists`
/// branch of its contract.
pub proof fn lemma_create_plan_then_get(
    plans: Seq<PlanRow>,
    plan_id: u32,
    period_ledgers: u32,
    price_stroops: i128,
    ttl: u32,
)
    requires
        plans_unique(plans),
        period_ledgers > 0,
        price_stroops > 0,
        !has_plan(plans, plan_id),
    ensures
        lookup_plan(
            plans.push(
                (PlanRow {
                    plan: (Plan { id: plan_id, period_ledgers, price_stroops, active: true }),
                    ttl,
                }),
            ),
            plan_id,
        ) == Some((Plan { id: plan_id, period_ledgers, price_stroops, active: true })),
        has_plan(
            plans.push(
                (PlanRow {
                    plan: (Plan { id: plan_id, period_ledgers, price_stroops, active: true }),
                    ttl,
                }),
            ),
            plan_id,
        ),
{
    let row = PlanRow {
        plan: Plan { id: plan_id, period_ledgers, price_stroops, active: true },
        ttl,
    };
    lemma_lookup_plan_push(plans, row);
}

/// Cancelling frees the slot: a state whose record for `subscriber` is
/// inactive — exactly what `cancel` leaves behind — admits `subscribe` again
/// for any active plan on an initialized ledger, while a state whose record
/// is active meets the `SubscriptionAlreadyExists` branch of `subscribe`'s
/// contract.
pub proof fn lemma_cancel_enables_resubscribe(s: SbSubscription, subscriber: u64, plan_id: u32)
    requires
        has_plan(s.plans@, plan_id),
        lookup_plan(s.plans@, plan_id).unwrap().active,
        s.config is Some,
        has_sub(s.subs@, subscriber),
        !lookup_sub(s.subs@, subscriber).unwrap().active,
    ensures
        s.subscribe_admitted(subscriber, plan_id),
{
}

/// A single page whose limit covers the whole table returns every item, in
/// index order.
pub proof fn lemma_page_full<T>(s: Seq<T>, limit: u32)
    requires
        s.len() <= limit as int,
    ensures
        page_of(s, 0, limit) == s,
{
    if s.len() > 0 {
        assert(page_of(s, 0, limit) =~= s);
    } else {
        assert(page_of(s, 0, limit) =~= s);
    }
}

/// Two adjacent pages concatenate to one page of the combined limit: paging
/// through the table with non-overlapping windows yields every item exactly
/// once, in index order.
pub proof fn lemma_pages_concat<T>(s: Seq<T>, offset: u32, limit_a: u32, limit_b: u32)
    requires
        offset as int + limit_a as int + limit_b as int <= u32::MAX as int,
    ensures
        page_of(s, offset, limit_a) + page_of(s, (offset + limit_a) as u32, limit_b) == page_of(
            s,
            offset,
            (limit_a + limit_b) as u32,
        ),
{
    let mid = (offset + limit_a) as u32;
    let both = (limit_a + limit_b) as u32;
    if offset as int >= s.len() {
        assert(page_of(s, offset, limit_a) + page_of(s, mid, limit_b) =~= page_of(
            s,
            offset,
            both,
        ));
    } else if mid as int >= s.len() {
        assert(page_of(s, offset, limit_a) + page_of(s, mid, limit_b) =~= page_of(
            s,
            offset,
            both,
        ));
    } else {
        assert(page_of(s, offset, limit_a) + page_of(s, mid, limit_b) =~= page_of(
            s,
            offset,
            both,
        ));
    }
}

} // verus!
