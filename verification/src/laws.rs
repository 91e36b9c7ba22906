//! Laws of the ledger state machine, stated over the mathematical
//! transitions of [`crate::payment_engine`] and proved once and for all.

use vstd::prelude::*;

use crate::payment_engine::LedgerView;
use crate::payment_engine::apply_txn;
use crate::payment_engine::in_range;
use crate::payment_engine::inv;
use crate::payment_engine::lemma_apply_txn_preserves_inv;
use crate::types::Transaction;
use crate::types::TransactionType;

verus! {

/// The ledger after a whole stream of records, applied strictly in input
/// order.
pub open spec fn apply_all(s: LedgerView, ts: Seq<Transaction>) -> LedgerView
    decreases ts.len(),
{
    if ts.len() == 0 {
        s
    } else {
        apply_all(apply_txn(s, ts[0]), ts.drop_first())
    }
}

/// The ledger invariant holds after processing any stream of well-formed
/// records, from any state satisfying it — in particular from the empty
/// ledger; so at every point of a run each unlocked account satisfies
/// `total == available + held`.
pub proof fn lemma_apply_all_preserves_inv(s: LedgerView, ts: Seq<Transaction>)
    requires
        inv(s),
        forall|i: int| 0 <= i < ts.len() ==> (#[trigger] ts[i]).wf(),
    ensures
        inv(apply_all(s, ts)),
    decreases ts.len(),
{
    if ts.len() > 0 {
        lemma_apply_txn_preserves_inv(s, ts[0]);
        lemma_apply_all_preserves_inv(apply_txn(s, ts[0]), ts.drop_first());
    }
}

/// A withdrawal that `available` does not cover is rejected: the ledger —
/// accounts, stored transactions and disputes alike — is left exactly as
/// it was.
pub proof fn lemma_uncovered_withdrawal_is_no_op(s: LedgerView, t: Transaction)
    requires
        t.kind == TransactionType::Withdrawal,
        t.amount matches Some(a),
        s.clients.contains_key(t.client) ==> s.clients[t.client].available < t.amount->Some_0,
    ensures
        apply_txn(s, t) == s,
{
}

/// A deposit or withdrawal addressed to a locked account is rejected: the
/// ledger is left exactly as it was.
pub proof fn lemma_locked_account_rejects(s: LedgerView, t: Transaction)
    requires
        t.kind == TransactionType::Deposit || t.kind == TransactionType::Withdrawal,
        s.clients.contains_key(t.client),
        s.clients[t.client].locked,
    ensures
        apply_txn(s, t) == s,
{
}

/// A dispute referencing an id that was never stored, or one whose stored
/// transaction belongs to a different client, is rejected: the ledger is
/// left exactly as it was.
pub proof fn lemma_misdirected_dispute_is_no_op(s: LedgerView, t: Transaction)
    requires
        t.kind == TransactionType::Dispute,
        !s.transactions.contains_key(t.tx) || s.transactions[t.tx].client != t.client,
    ensures
        apply_txn(s, t) == s,
{
}

/// A dispute followed by a resolve of the same id restores every account
/// to its pre-dispute state, and the disputed client's `total` is
/// unchanged at both steps.
pub proof fn lemma_dispute_resolve_round_trip(s: LedgerView, d: Transaction, r: Transaction)
    requires
        inv(s),
        d.kind == TransactionType::Dispute,
        r.kind == TransactionType::Resolve,
        r.tx == d.tx,
        r.client == d.client,
        s.transactions.contains_key(d.tx),
        s.transactions[d.tx].client == d.client,
        in_range(s.clients[d.client].available - s.transactions[d.tx].amount->Some_0),
        in_range(s.clients[d.client].held + s.transactions[d.tx].amount->Some_0),
    ensures
        ({
            let s1 = apply_txn(s, d);
            let s2 = apply_txn(s1, r);
            &&& s2.clients == s.clients
            &&& s1.clients[d.client].total == s.clients[d.client].total
            &&& s2.clients[d.client].total == s.clients[d.client].total
            &&& s2.transactions == s.transactions
        }),
{
    let s1 = apply_txn(s, d);
    let s2 = apply_txn(s1, r);
    assert(s2.clients =~= s.clients);
}

/// A dispute followed by a chargeback of the same id locks the account,
/// returns `held` to its pre-dispute value, and takes the disputed amount
/// out of `total` — except that whenever `available` or `total` would end
/// negative, both are forced to exactly zero.
pub proof fn lemma_dispute_chargeback_locks(s: LedgerView, d: Transaction, cb: Transaction)
    requires
        inv(s),
        d.kind == TransactionType::Dispute,
        cb.kind == TransactionType::Chargeback,
        cb.tx == d.tx,
        cb.client == d.client,
        s.transactions.contains_key(d.tx),
        s.transactions[d.tx].client == d.client,
        in_range(s.clients[d.client].available - s.transactions[d.tx].amount->Some_0),
        in_range(s.clients[d.client].held + s.transactions[d.tx].amount->Some_0),
        in_range(s.clients[d.client].total - s.transactions[d.tx].amount->Some_0),
    ensures
        ({
            let a = s.transactions[d.tx].amount->Some_0;
            let c0 = s.clients[d.client];
            let s2 = apply_txn(apply_txn(s, d), cb);
            let clamped = c0.available - a < 0 || c0.total - a < 0;
            &&& s2.clients.contains_key(d.client)
            &&& s2.clients[d.client].locked
            &&& s2.clients[d.client].held == c0.held
            &&& clamped ==> s2.clients[d.client].available == 0 && s2.clients[d.client].total == 0
            &&& !clamped ==> s2.clients[d.client].available == c0.available - a
                && s2.clients[d.client].total == c0.total - a
        }),
{
}

} // verus!
