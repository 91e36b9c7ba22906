//! Data model: transaction records and per-client account state.
//!
//! Amounts are fixed-point: an `i64` counts ten-thousandths of a currency
//! unit (so `15000` stands for `1.5000`). Amounts carried by a transaction
//! record are non-negative; account balances are signed, since a dispute
//! filed after funds were partially withdrawn may drive `available` below
//! zero.

use vstd::prelude::*;

verus! {

/// The five kinds of transaction record the ledger understands.
#[derive(Clone, Copy, PartialEq, Eq, Structural, Debug)]
pub enum TransactionType {
    Deposit,
    Withdrawal,
    Dispute,
    Resolve,
    Chargeback,
}

/// One immutable input event.
///
/// `tx` is the record's own id for deposits and withdrawals; dispute,
/// resolve and chargeback records reuse the id of the transaction they act
/// upon. `amount` is present only for deposits and withdrawals.
#[derive(Clone, Copy, Debug)]
pub struct Transaction {
    pub kind: TransactionType,
    pub client: u16,
    pub tx: u32,
    pub amount: Option<i64>,
}

impl Transaction {
    /// A record of the shape the upstream parser guarantees: when an amount
    /// is present it is non-negative.
    pub open spec fn wf(self) -> bool {
        match self.amount {
            Some(a) => a >= 0,
            None => true,
        }
    }
}

/// A client account: usable funds, funds frozen pending dispute resolution,
/// their sum, and the permanent lock set by a chargeback.
#[derive(Clone, Copy, PartialEq, Eq, Structural, Debug)]
pub struct Client {
    pub available: i64,
    pub held: i64,
    pub total: i64,
    pub locked: bool,
}

impl Client {
    /// `total` is the sum of `available` and `held`. Every transition
    /// preserves this on unlocked accounts; the chargeback clamp may break
    /// it, but only on an account it simultaneously locks.
    pub open spec fn balanced(self) -> bool {
        self.total == self.available + self.held
    }

    /// A fresh account, created on first reference to a client id.
    pub fn new() -> (c: Client)
        ensures
            c == Client::initial(),
    {
        Client { available: 0, held: 0, total: 0, locked: false }
    }

    /// The state every account starts in: all balances zero, unlocked.
    pub open spec fn initial() -> Client {
        Client { available: 0, held: 0, total: 0, locked: false }
    }
}

} // verus!
