//! A verified payment ledger: processes a stream of deposit, withdrawal,
//! dispute, resolve and chargeback records against per-client accounts.
//!
//! Monetary quantities are fixed-point integers counting ten-thousandths of
//! a currency unit, so that the four-decimal-place report is exact.

pub mod errors;
pub mod laws;
pub mod payment_engine;
pub mod report;
pub mod types;

pub use errors::PaymentError;
pub use payment_engine::PaymentEngine;
pub use types::Client;
pub use types::Transaction;
pub use types::TransactionType;
