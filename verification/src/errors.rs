//! The error taxonomy. Every failing operation reports exactly one of these
//! kinds, and a failing call leaves the state untouched (abort-with-rollback
//! semantics: there is no partial effect).

use vstd::prelude::*;

verus! {

#[derive(Clone, Copy, Debug, PartialEq, Eq, PartialOrd, Ord, Structural)]
pub enum SubscriptionError {
    AlreadyInitialized,
    NotInitialized,
    Unauthorized,
    PlanAlreadyExists,
    PlanNotFound,
    InvalidPeriod,
    PlanInactive,
    SubscriptionAlreadyExists,
    SubscriptionNotFound,
    SubscriptionCancelled,
    InvalidPrice,
    RenewTooEarly,
    InvalidPageSize,
}

} // verus!
