//! A recurring-billing ledger: administrators define subscription plans
//! (price, renewal period), principals subscribe and are charged on a fixed
//! cadence, and anyone can page through plans, subscribers, and
//! subscriptions.
//!
//! The hosting environment (the expiring key-value store, the authorization
//! collaborator, the logical clock, and the payment-transfer ledger) is kept
//! outside this crate. The contract state is held as plain data, principals
//! are plain integer identities, the clock value is passed in by the caller,
//! and every successful charging operation returns a [`records::Charge`]
//! describing the transfer the payment collaborator must perform.

pub mod contract;
pub mod errors;
pub mod laws;
pub mod model;
pub mod pagination;
pub mod records;
pub mod storage;

pub use contract::SbSubscription;
pub use errors::SubscriptionError;
pub use records::{Charge, Config, PaymentMode, Plan, PlanRow, SubRow, Subscription};
