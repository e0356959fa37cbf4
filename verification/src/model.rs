//! The mathematical model of the two durable tables: lookup by key over a
//! sequence of rows with unique keys, and the pagination window.

use crate::records::{Plan, PlanRow, SubRow, Subscription};
use vstd::prelude::*;

verus! {

/// The plan ids of the table, in index (insertion) order.
pub open spec fn plan_ids(s: Seq<PlanRow>) -> Seq<u32> {
    s.map(|i: int, r: PlanRow| r.plan.id)
}

/// No two rows carry the same plan id.
pub open spec fn plans_unique(s: Seq<PlanRow>) -> bool {
    forall|i: int, j: int|
        0 <= i < j < s.len() ==> #[trigger] s[i].plan.id != #[trigger] s[j].plan.id
}

pub open spec fn has_plan(s: Seq<PlanRow>, id: u32) -> bool {
    exists|i: int| 0 <= i < s.len() && #[trigger] s[i].plan.id == id
}

/// The index of the row holding `id` (meaningful only when `has_plan`;
/// unique when `plans_unique`).
pub open spec fn plan_idx(s: Seq<PlanRow>, id: u32) -> int {
    choose|i: int| 0 <= i < s.len() && #[trigger] s[i].plan.id == id
}

pub open spec fn lookup_plan(s: Seq<PlanRow>, id: u32) -> Option<Plan> {
    if has_plan(s, id) {
        Some(s[plan_idx(s, id)].plan)
    } else {
        None
    }
}

/// The subscriber principals of the table, in index (first-subscribe) order.
pub open spec fn subscriber_ids(s: Seq<SubRow>) -> Seq<u64> {
    s.map(|i: int, r: SubRow| r.sub.subscriber)
}

/// The subscription records of the table, in index order.
pub open spec fn sub_records(s: Seq<SubRow>) -> Seq<Subscription> {
    s.map(|i: int, r: SubRow| r.sub)
}

/// No two rows belong to the same subscriber: a principal is indexed at most
/// once, however many subscribe/cancel cycles it goes through.
pub open spec fn subs_unique(s: Seq<SubRow>) -> bool {
    forall|i: int, j: int|
        0 <= i < j < s.len() ==> #[trigger] s[i].sub.subscriber != #[trigger] s[j].sub.subscriber
}

pub open spec fn has_sub(s: Seq<SubRow>, subscriber: u64) -> bool {
    exists|i: int| 0 <= i < s.len() && #[trigger] s[i].sub.subscriber == subscriber
}

/// The index of the row belonging to `subscriber` (meaningful only when
/// `has_sub`; unique when `subs_unique`).
pub open spec fn sub_idx(s: Seq<SubRow>, subscriber: u64) -> int {
    choose|i: int| 0 <= i < s.len() && #[trigger] s[i].sub.subscriber == subscriber
}

pub open spec fn lookup_sub(s: Seq<SubRow>, subscriber: u64) -> Option<Subscription> {
    if has_sub(s, subscriber) {
        Some(s[sub_idx(s, subscriber)].sub)
    } else {
        None
    }
}

/// The window a listing operation returns: the items at indices
/// `[offset, min(len, offset + limit))`, in index order. An offset at or past
/// the end yields the empty window, as does a zero limit.
pub open spec fn page_of<T>(s: Seq<T>, offset: u32, limit: u32) -> Seq<T> {
    if offset as int >= s.len() {
        Seq::empty()
    } else if offset as int + limit as int <= s.len() {
        s.subrange(offset as int, offset as int + limit as int)
    } else {
        s.subrange(offset as int, s.len() as int)
    }
}

/// A row appended with a fresh id is found by a lookup for that id, and the
/// other rows stay where a lookup finds them.
pub proof fn lemma_lookup_plan_push(s: Seq<PlanRow>, row: PlanRow)
    requires
        plans_unique(s),
        !has_plan(s, row.plan.id),
    ensures
        lookup_plan(s.push(row), row.plan.id) == Some(row.plan),
        forall|id: u32| id != row.plan.id ==> #[trigger] lookup_plan(s.push(row), id) == lookup_plan(s, id),
        forall|id: u32| #[trigger] has_plan(s.push(row), id) == (has_plan(s, id) || id == row.plan.id),
        plans_unique(s.push(row)),
{
    let t = s.push(row);
    assert forall|id: u32| #[trigger] has_plan(t, id) == (has_plan(s, id) || id == row.plan.id) by {
        if has_plan(s, id) {
            let j = plan_idx(s, id);
            assert(t[j] == s[j]);
            assert(has_plan(t, id));
        }
        if id == row.plan.id {
            assert(t[s.len() as int] == row);
            assert(has_plan(t, id));
        }
        if has_plan(t, id) {
            let k = plan_idx(t, id);
            if k < s.len() {
                assert(s[k] == t[k]);
                assert(has_plan(s, id));
            } else {
                assert(t[k] == row);
            }
        }
    }
    assert(t[s.len() as int] == row);
    assert(has_plan(t, row.plan.id));
    let i = plan_idx(t, row.plan.id);
    assert(0 <= i < t.len() && t[i].plan.id == row.plan.id);
    if i < s.len() {
        assert(s[i] == t[i]);
        assert(has_plan(s, row.plan.id));
    }
    assert(t[i] == row);
    assert forall|id: u32| id != row.plan.id implies #[trigger] lookup_plan(t, id) == lookup_plan(s, id) by {
        if has_plan(s, id) {
            let j = plan_idx(s, id);
            assert(t[j] == s[j]);
            assert(has_plan(t, id));
            let k = plan_idx(t, id);
            assert(k < s.len() && s[k] == t[k]);
        } else {
            if has_plan(t, id) {
                let k = plan_idx(t, id);
                assert(k < s.len() && s[k] == t[k]);
                assert(has_plan(s, id));
            }
        }
    }
}

/// A row replaced in place by one with the same subscriber stays the row a
/// lookup for that subscriber finds, and the other rows stay where a lookup
/// finds them.
pub proof fn lemma_lookup_sub_update(s: Seq<SubRow>, i: int, row: SubRow)
    requires
        subs_unique(s),
        0 <= i < s.len(),
        s[i].sub.subscriber == row.sub.subscriber,
    ensures
        lookup_sub(s.update(i, row), row.sub.subscriber) == Some(row.sub),
        forall|w: u64| w != row.sub.subscriber ==> #[trigger] lookup_sub(s.update(i, row), w) == lookup_sub(s, w),
        subs_unique(s.update(i, row)),
{
    let t = s.update(i, row);
    assert(t[i] == row);
    assert(has_sub(t, row.sub.subscriber));
    let k = sub_idx(t, row.sub.subscriber);
    assert(0 <= k < t.len() && t[k].sub.subscriber == row.sub.subscriber);
    if k != i {
        assert(t[k] == s[k]);
        assert(s[k].sub.subscriber == s[i].sub.subscriber);
        assert(false);
    }
    assert forall|w: u64| w != row.sub.subscriber implies #[trigger] lookup_sub(t, w) == lookup_sub(s, w) by {
        if has_sub(s, w) {
            let j = sub_idx(s, w);
            assert(j != i);
            assert(t[j] == s[j]);
            assert(has_sub(t, w));
            let m = sub_idx(t, w);
            assert(m != i);
            assert(s[m] == t[m]);
        } else {
            if has_sub(t, w) {
                let m = sub_idx(t, w);
                assert(m != i);
                assert(s[m] == t[m]);
                assert(has_sub(s, w));
            }
        }
    }
}

/// A row appended for a fresh subscriber is found by a lookup for that
/// subscriber, and the other rows stay where a lookup finds them.
pub proof fn lemma_lookup_sub_push(s: Seq<SubRow>, row: SubRow)
    requires
        subs_unique(s),
        !has_sub(s, row.sub.subscriber),
    ensures
        lookup_sub(s.push(row), row.sub.subscriber) == Some(row.sub),
        forall|w: u64| w != row.sub.subscriber ==> #[trigger] lookup_sub(s.push(row), w) == lookup_sub(s, w),
        subs_unique(s.push(row)),
{
    let t = s.push(row);
    assert(t[s.len() as int] == row);
    assert(has_sub(t, row.sub.subscriber));
    let i = sub_idx(t, row.sub.subscriber);
    assert(0 <= i < t.len() && t[i].sub.subscriber == row.sub.subscriber);
    if i < s.len() {
        assert(s[i] == t[i]);
        assert(has_sub(s, row.sub.subscriber));
    }
    assert(t[i] == row);
    assert forall|w: u64| w != row.sub.subscriber implies #[trigger] lookup_sub(t, w) == lookup_sub(s, w) by {
        if has_sub(s, w) {
            let j = sub_idx(s, w);
            assert(t[j] == s[j]);
            assert(has_sub(t, w));
            let k = sub_idx(t, w);
            assert(k < s.len() && s[k] == t[k]);
        } else {
            if has_sub(t, w) {
                let k = sub_idx(t, w);
                assert(k < s.len() && s[k] == t[k]);
                assert(has_sub(s, w));
            }
        }
    }
}

/// A plan row replaced in place by one with the same id: the lookup for that
/// id finds the new record, the others are untouched.
pub proof fn lemma_lookup_plan_update(s: Seq<PlanRow>, i: int, row: PlanRow)
    requires
        plans_unique(s),
        0 <= i < s.len(),
        s[i].plan.id == row.plan.id,
    ensures
        lookup_plan(s.update(i, row), row.plan.id) == Some(row.plan),
        forall|id: u32| id != row.plan.id ==> #[trigger] lookup_plan(s.update(i, row), id) == lookup_plan(s, id),
        forall|id: u32| #[trigger] has_plan(s.update(i, row), id) == has_plan(s, id),
        plans_unique(s.update(i, row)),
{
    let t = s.update(i, row);
    assert forall|id: u32| #[trigger] has_plan(t, id) == has_plan(s, id) by {
        if has_plan(s, id) {
            let j = plan_idx(s, id);
            if j == i {
                assert(t[i].plan.id == id);
            } else {
                assert(t[j] == s[j]);
            }
            assert(has_plan(t, id));
        }
        if has_plan(t, id) {
            let k = plan_idx(t, id);
            if k == i {
                assert(s[i].plan.id == id);
            } else {
                assert(s[k] == t[k]);
            }
            assert(has_plan(s, id));
        }
    }
    assert(t[i] == row);
    assert(has_plan(t, row.plan.id));
    let k = plan_idx(t, row.plan.id);
    assert(0 <= k < t.len() && t[k].plan.id == row.plan.id);
    if k != i {
        assert(t[k] == s[k]);
        assert(s[k].plan.id == s[i].plan.id);
        assert(false);
    }
    assert forall|id: u32| id != row.plan.id implies #[trigger] lookup_plan(t, id) == lookup_plan(s, id) by {
        if has_plan(s, id) {
            let j = plan_idx(s, id);
            assert(j != i);
            assert(t[j] == s[j]);
            assert(has_plan(t, id));
            let m = plan_idx(t, id);
            assert(m != i);
            assert(s[m] == t[m]);
        } else {
            if has_plan(t, id) {
                let m = plan_idx(t, id);
                assert(m != i);
                assert(s[m] == t[m]);
                assert(has_plan(s, id));
            }
        }
    }
}

} // verus!
