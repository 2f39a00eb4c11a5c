//! A ledger of client accounts driven by an ordered stream of deposits,
//! withdrawals, disputes, resolves and chargebacks.
//!
//! Records are applied one at a time, in order, by [`Transaction::save`]
//! (or [`Store::save_all`] for a batch), whose contract is the state machine
//! [`transaction::apply`]. Two choices are fixed there: a deposit or
//! withdrawal that re-uses a known transaction id replaces the kept record,
//! and a dispute of a transaction that is already disputed is rejected.
//! Amounts are exact decimals ([`Amount`]); balances are rendered with four
//! fractional digits by [`Amount::to_fixed4_string`].
pub mod account;
pub mod amount;
pub mod laws;
pub mod store;
pub mod text;
pub mod transaction;

pub use account::{Account, Client};
pub use amount::Amount;
pub use store::Store;
pub use transaction::{
    Transaction, TransactionDetails, TransactionError, TransactionId, TransactionKind,
};
