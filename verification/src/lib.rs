//! A transaction-processing engine for client accounts.
//!
//! Transactions (deposits, withdrawals, disputes, resolutions and chargebacks)
//! arrive in order and are applied to per-client balances. Every executable
//! function is tied by its contract to a mathematical model: [`Balance`] for a
//! single account and [`Ledger`] for the stores taken together.
//!
//! Amounts are fixed-point numbers counted in ten-thousandths of a unit, so
//! sums and differences are exact.

pub mod accounts;
pub mod amount;
pub mod database;
pub mod errors;
pub mod laws;
pub mod ledger;
pub mod transactions;
pub mod txn;

pub use accounts::{Balance, OutputAccount, UserAccount};
pub use database::{StoredTxn, StoredTxnType};
pub use errors::{log_error, Level, LogEntry, TxnFlowError};
pub use ledger::Ledger;
pub use transactions::TxnManager;
pub use txn::{Txn, TxnType};
