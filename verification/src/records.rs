//! The record types of the ledger. Principals (the host's opaque identities)
//! are modelled as plain `u64` identity numbers: the logic only ever compares
//! them for equality, so an integer carries everything it reads.

use vstd::prelude::*;

verus! {

/// A subscription plan. Identity is `id`, assigned by the caller and unique
/// for the contract's lifetime. `period_ledgers` and `price_stroops` are
/// immutable after creation; only `active` is ever toggled.
#[derive(Clone, Copy, Debug, PartialEq, Eq, Structural)]
pub struct Plan {
    pub id: u32,
    pub period_ledgers: u32,
    pub price_stroops: i128,
    pub active: bool,
}

/// A subscriber's record. Identity is `subscriber`: one slot per principal;
/// re-subscribing after a cancel overwrites the slot with a fresh record.
#[derive(Clone, Copy, Debug, PartialEq, Eq, Structural)]
pub struct Subscription {
    pub subscriber: u64,
    pub plan_id: u32,
    pub started_ledger: u32,
    pub next_renewal_ledger: u32,
    pub active: bool,
}

/// The one-shot configuration, set exactly once at initialization.
#[derive(Clone, Copy, Debug, PartialEq, Eq, Structural)]
pub struct Config {
    pub admin: u64,
    pub payment_token: u64,
    pub treasury: u64,
}

/// A plan record together with the remaining lifetime of its storage entry.
/// The record and its position in the dense plan index share one lifetime in
/// this model.
#[derive(Clone, Copy, Debug, PartialEq, Eq, Structural)]
pub struct PlanRow {
    pub plan: Plan,
    pub ttl: u32,
}

/// A subscription record together with the remaining lifetime of its storage
/// entry. The record, its index slot, and its first-seen marker share one
/// lifetime in this model.
#[derive(Clone, Copy, Debug, PartialEq, Eq, Structural)]
pub struct SubRow {
    pub sub: Subscription,
    pub ttl: u32,
}

/// How a charge moves funds on the external payment ledger.
#[derive(Clone, Copy, Debug, PartialEq, Eq, Structural)]
pub enum PaymentMode {
    /// The payer is present and actively authorizing: a plain push transfer.
    Direct,
    /// The payer pre-granted an allowance to the contract: a third party may
    /// trigger the transfer without the payer being present.
    Delegated,
}

/// The transfer the payment collaborator must perform for a successful
/// charging operation. The host applies it on the configured payment token;
/// if the ledger rejects it (insufficient balance or allowance), the whole
/// call aborts and no state change is committed.
#[derive(Clone, Copy, Debug, PartialEq, Eq, Structural)]
pub struct Charge {
    pub payer: u64,
    pub payee: u64,
    pub amount: i128,
    pub mode: PaymentMode,
}

} // verus!
