//! The ledger state machine: per-client accounts, the table of applied
//! deposits and withdrawals, and the table of open disputes.
//!
//! Every handler is specified against a mathematical transition function
//! over [`LedgerView`], and every transition preserves the ledger invariant
//! [`inv`]. A transaction whose preconditions fail is a silent no-op: the
//! ledger never aborts the stream. A transaction whose balance update would
//! leave the fixed-point range of `i64` is likewise ignored, so no
//! arithmetic here can overflow.

use vstd::prelude::*;

use vstd::std_specs::iter::IteratorSpec;

use crate::report::format_client_row;
use crate::report::spec_client_row;
use crate::types::Client;
use crate::types::Transaction;
use crate::types::TransactionType;
use std::collections::HashMap;

verus! {

broadcast use vstd::std_specs::hash::group_hash_axioms;

/// The mathematical state of the ledger: the three tables as maps.
pub struct LedgerView {
    /// Per-client account state.
    pub clients: Map<u16, Client>,
    /// Every successfully applied deposit or withdrawal, by its id.
    pub transactions: Map<u32, Transaction>,
    /// The record that raised a dispute, by the disputed id. Entries are
    /// never removed: resolve and chargeback leave the table as it stands.
    pub disputed: Map<u32, Transaction>,
}

/// Does `x` fit in the fixed-point range?
pub open spec fn in_range(x: int) -> bool {
    i64::MIN <= x <= i64::MAX
}

/// The ledger invariant.
///
/// - A stored transaction is a deposit or withdrawal filed under its own
///   id, carries a non-negative amount, and belongs to a client that has
///   an account.
/// - A disputed id is a stored id, and the dispute record is filed under it.
/// - Every unlocked account is balanced: `total == available + held`.
pub open spec fn inv(s: LedgerView) -> bool {
    &&& forall|id: u32| #[trigger] s.transactions.contains_key(id) ==> {
        let t = s.transactions[id];
        &&& t.tx == id
        &&& (t.kind == TransactionType::Deposit || t.kind == TransactionType::Withdrawal)
        &&& t.amount matches Some(a) && a >= 0
        &&& s.clients.contains_key(t.client)
    }
    &&& forall|id: u32| #[trigger] s.disputed.contains_key(id) ==> {
        &&& s.transactions.contains_key(id)
        &&& s.disputed[id].tx == id
    }
    &&& forall|c: u16| #[trigger] s.clients.contains_key(c) ==> {
        !s.clients[c].locked ==> s.clients[c].balanced()
    }
}

/// Deposit: the account is created on first reference; then, if it is
/// unlocked, the amount is present and positive, and both balance updates
/// stay in range, `available` and `total` grow by the amount and the record
/// is stored for future dispute reference. Otherwise nothing but the
/// account creation happens.
pub open spec fn apply_deposit(s: LedgerView, t: Transaction) -> LedgerView {
    let clients = if s.clients.contains_key(t.client) {
        s.clients
    } else {
        s.clients.insert(t.client, Client::initial())
    };
    let c = clients[t.client];
    if !c.locked && (t.amount matches Some(a) && a > 0 && in_range(c.available + a) && in_range(
        c.total + a,
    )) {
        let a = t.amount->Some_0;
        LedgerView {
            clients: clients.insert(
                t.client,
                Client { available: (c.available + a) as i64, total: (c.total + a) as i64, ..c },
            ),
            transactions: s.transactions.insert(t.tx, t),
            disputed: s.disputed,
        }
    } else {
        LedgerView { clients, ..s }
    }
}

/// Withdrawal: applies only if the account exists, is unlocked, the amount
/// is present, `available` covers it, and the `total` update stays in
/// range. Then `available` and `total` shrink by the amount and the record
/// is stored. Otherwise the ledger is unchanged.
pub open spec fn apply_withdrawal(s: LedgerView, t: Transaction) -> LedgerView {
    if s.clients.contains_key(t.client) && {
        let c = s.clients[t.client];
        !c.locked && (t.amount matches Some(a) && c.available >= a && in_range(c.total - a))
    } {
        let c = s.clients[t.client];
        let a = t.amount->Some_0;
        LedgerView {
            clients: s.clients.insert(
                t.client,
                Client { available: (c.available - a) as i64, total: (c.total - a) as i64, ..c },
            ),
            transactions: s.transactions.insert(t.tx, t),
            disputed: s.disputed,
        }
    } else {
        s
    }
}

/// Dispute: the referenced id must be stored and belong to the disputing
/// client; the stored amount then moves from `available` to `held` (which
/// may drive `available` negative by design — the lock does not block
/// disputes) and the id is registered as disputed. `total` is unchanged.
pub open spec fn apply_dispute(s: LedgerView, t: Transaction) -> LedgerView {
    if s.transactions.contains_key(t.tx) && {
        let ot = s.transactions[t.tx];
        &&& ot.client == t.client
        &&& s.clients.contains_key(ot.client)
        &&& ot.amount matches Some(a) && in_range(s.clients[ot.client].available - a) && in_range(
            s.clients[ot.client].held + a,
        )
    } {
        let ot = s.transactions[t.tx];
        let c = s.clients[ot.client];
        let a = ot.amount->Some_0;
        LedgerView {
            clients: s.clients.insert(
                ot.client,
                Client { available: (c.available - a) as i64, held: (c.held + a) as i64, ..c },
            ),
            transactions: s.transactions,
            disputed: s.disputed.insert(t.tx, t),
        }
    } else {
        s
    }
}

/// Resolve: the referenced id must be under dispute, stored, and belong to
/// the resolving client; the stored amount then moves back from `held` to
/// `available`. The disputed entry is deliberately not cleared, so a
/// duplicate resolve is replayed and credits `available` again.
pub open spec fn apply_resolve(s: LedgerView, t: Transaction) -> LedgerView {
    if s.disputed.contains_key(t.tx) && s.transactions.contains_key(t.tx) && {
        let ot = s.transactions[t.tx];
        &&& ot.client == t.client
        &&& s.clients.contains_key(ot.client)
        &&& ot.amount matches Some(a) && in_range(s.clients[ot.client].available + a) && in_range(
            s.clients[ot.client].held - a,
        )
    } {
        let ot = s.transactions[t.tx];
        let c = s.clients[ot.client];
        let a = ot.amount->Some_0;
        LedgerView {
            clients: s.clients.insert(
                ot.client,
                Client { available: (c.available + a) as i64, held: (c.held - a) as i64, ..c },
            ),
            transactions: s.transactions,
            disputed: s.disputed,
        }
    } else {
        s
    }
}

/// Chargeback: the referenced id must be under dispute, stored, and belong
/// to the charging client. `total` shrinks by the stored amount; if
/// `available` or the new `total` is negative, both are clamped to exactly
/// zero before `held` shrinks by the amount — the clamp deliberately does
/// not touch `held`, so a clamped account may end with
/// `total != available + held`. The account is locked permanently. The
/// disputed entry is not cleared.
pub open spec fn apply_chargeback(s: LedgerView, t: Transaction) -> LedgerView {
    if s.disputed.contains_key(t.tx) && s.transactions.contains_key(t.tx) && {
        let ot = s.transactions[t.tx];
        &&& ot.client == t.client
        &&& s.clients.contains_key(ot.client)
        &&& ot.amount matches Some(a) && in_range(s.clients[ot.client].total - a) && in_range(
            s.clients[ot.client].held - a,
        )
    } {
        let ot = s.transactions[t.tx];
        let c = s.clients[ot.client];
        let a = ot.amount->Some_0;
        let new_total = c.total - a;
        let (av2, tot2): (i64, i64) = if c.available < 0 || new_total < 0 {
            (0i64, 0i64)
        } else {
            (c.available, new_total as i64)
        };
        LedgerView {
            clients: s.clients.insert(
                ot.client,
                Client { available: av2, held: (c.held - a) as i64, total: tot2, locked: true },
            ),
            transactions: s.transactions,
            disputed: s.disputed,
        }
    } else {
        s
    }
}

/// One step of the state machine: route the record to its handler's
/// transition.
pub open spec fn apply_txn(s: LedgerView, t: Transaction) -> LedgerView {
    match t.kind {
        TransactionType::Deposit => apply_deposit(s, t),
        TransactionType::Withdrawal => apply_withdrawal(s, t),
        TransactionType::Dispute => apply_dispute(s, t),
        TransactionType::Resolve => apply_resolve(s, t),
        TransactionType::Chargeback => apply_chargeback(s, t),
    }
}

/// The ledger: per-client accounts plus the bookkeeping needed to resolve
/// disputes against earlier transactions.
pub struct PaymentEngine {
    pub clients: HashMap<u16, Client>,
    pub transactions: HashMap<u32, Transaction>,
    pub disputed_transactions: HashMap<u32, Transaction>,
}

impl View for PaymentEngine {
    type V = LedgerView;

    open spec fn view(&self) -> LedgerView {
        LedgerView {
            clients: self.clients@,
            transactions: self.transactions@,
            disputed: self.disputed_transactions@,
        }
    }
}

impl PaymentEngine {
    /// The ledger invariant, on the executable state.
    pub open spec fn wf(self) -> bool {
        inv(self@)
    }

    /// An empty ledger: no accounts, no stored transactions, no disputes.
    pub fn new() -> (e: PaymentEngine)
        ensures
            e.wf(),
            e@.clients == Map::<u16, Client>::empty(),
            e@.transactions == Map::<u32, Transaction>::empty(),
            e@.disputed == Map::<u32, Transaction>::empty(),
    {
        PaymentEngine {
            clients: HashMap::new(),
            transactions: HashMap::new(),
            disputed_transactions: HashMap::new(),
        }
    }

    fn process_deposit(&mut self, txn: Transaction)
        requires
            txn.wf(),
        ensures
            final(self)@ == apply_deposit(old(self)@, txn),
    {
        if !self.clients.contains_key(&txn.client) {
            self.clients.insert(txn.client, Client::new());
        }
        let client = *self.clients.get(&txn.client).unwrap();
        if !client.locked {
            if let Some(amount) = txn.amount {
                if amount > 0 && client.available <= i64::MAX - amount && client.total <= i64::MAX
                    - amount {
                    let updated = Client {
                        available: client.available + amount,
                        total: client.total + amount,
                        ..client
                    };
                    self.clients.insert(txn.client, updated);
                    self.transactions.insert(txn.tx, txn);
                    proof {
                        assert(self@.clients =~= apply_deposit(old(self)@, txn).clients);
                    }
                }
            }
        }
    }

    fn process_withdrawal(&mut self, txn: Transaction)
        requires
            txn.wf(),
        ensures
            final(self)@ == apply_withdrawal(old(self)@, txn),
    {
        if let Some(client_ref) = self.clients.get(&txn.client) {
            let client = *client_ref;
            if !client.locked {
                if let Some(amount) = txn.amount {
                    if client.available >= amount && client.total >= i64::MIN + amount {
                        let updated = Client {
                            available: client.available - amount,
                            total: client.total - amount,
                            ..client
                        };
                        self.clients.insert(txn.client, updated);
                        self.transactions.insert(txn.tx, txn);
                    }
                }
            }
        }
    }

    fn process_dispute(&mut self, txn: Transaction)
        requires
            old(self).wf(),
        ensures
            final(self)@ == apply_dispute(old(self)@, txn),
    {
        if let Some(original_ref) = self.transactions.get(&txn.tx) {
            let original = *original_ref;
            if original.client == txn.client {
                proof {
                    assert(old(self)@.transactions.contains_key(txn.tx));
                }
                if let Some(client_ref) = self.clients.get(&original.client) {
                    let client = *client_ref;
                    if let Some(amount) = original.amount {
                        if client.available >= i64::MIN + amount && client.held <= i64::MAX
                            - amount {
                            let updated = Client {
                                available: client.available - amount,
                                held: client.held + amount,
                                ..client
                            };
                            self.clients.insert(original.client, updated);
                            self.disputed_transactions.insert(txn.tx, txn);
                        }
                    }
                }
            }
        }
    }

    fn process_resolve(&mut self, txn: Transaction)
        requires
            old(self).wf(),
        ensures
            final(self)@ == apply_resolve(old(self)@, txn),
    {
        if self.disputed_transactions.contains_key(&txn.tx) {
            if let Some(original_ref) = self.transactions.get(&txn.tx) {
                let original = *original_ref;
                if original.client == txn.client {
                    proof {
                        assert(old(self)@.transactions.contains_key(txn.tx));
                    }
                    if let Some(client_ref) = self.clients.get(&original.client) {
                        let client = *client_ref;
                        if let Some(amount) = original.amount {
                            if client.available <= i64::MAX - amount && client.held >= i64::MIN
                                + amount {
                                let updated = Client {
                                    available: client.available + amount,
                                    held: client.held - amount,
                                    ..client
                                };
                                self.clients.insert(original.client, updated);
                            }
                        }
                    }
                }
            }
        }
    }

    fn process_chargeback(&mut self, txn: Transaction)
        requires
            old(self).wf(),
        ensures
            final(self)@ == apply_chargeback(old(self)@, txn),
    {
        if self.disputed_transactions.contains_key(&txn.tx) {
            if let Some(original_ref) = self.transactions.get(&txn.tx) {
                let original = *original_ref;
                if original.client == txn.client {
                    proof {
                        assert(old(self)@.transactions.contains_key(txn.tx));
                    }
                    if let Some(client_ref) = self.clients.get(&original.client) {
                        let client = *client_ref;
                        if let Some(amount) = original.amount {
                            if client.total >= i64::MIN + amount && client.held >= i64::MIN
                                + amount {
                                let new_total = client.total - amount;
                                let clamp = client.available < 0 || new_total < 0;
                                let updated = Client {
                                    available: if clamp {
                                        0
                                    } else {
                                        client.available
                                    },
                                    held: client.held - amount,
                                    total: if clamp {
                                        0
                                    } else {
                                        new_total
                                    },
                                    locked: true,
                                };
                                self.clients.insert(original.client, updated);
                            }
                        }
                    }
                }
            }
        }
    }

    /// Feed one transaction record into the state machine.
    ///
    /// The new ledger is exactly [`apply_txn`] of the old one, and the
    /// ledger invariant is preserved — in particular, after every step each
    /// unlocked account satisfies `total == available + held`.
    pub fn process_transaction(&mut self, txn: Transaction)
        requires
            old(self).wf(),
            txn.wf(),
        ensures
            final(self)@ == apply_txn(old(self)@, txn),
            final(self).wf(),
    {
        match txn.kind {
            TransactionType::Deposit => self.process_deposit(txn),
            TransactionType::Withdrawal => self.process_withdrawal(txn),
            TransactionType::Dispute => self.process_dispute(txn),
            TransactionType::Resolve => self.process_resolve(txn),
            TransactionType::Chargeback => self.process_chargeback(txn),
        }
        proof {
            lemma_apply_txn_preserves_inv(old(self)@, txn);
        }
    }

    /// Render one report row per client: for some ordering of exactly the
    /// client ids in the directory, row `i` is the row of the `i`-th id.
    /// Row order across clients is unspecified (it is the directory's
    /// iteration order).
    pub fn report_rows(&self) -> (rows: Vec<String>)
        ensures
            rows@.len() == self@.clients.dom().len(),
            exists|ids: Seq<u16>|
                #![trigger ids.len()]
                {
                    &&& ids.len() == rows@.len()
                    &&& (forall|id: u16|
                        #[trigger] ids.contains(id) <==> self@.clients.contains_key(id))
                    &&& (forall|i: int|
                        0 <= i < rows@.len() ==> (#[trigger] rows@[i])@ == spec_client_row(
                            ids[i],
                            self@.clients[ids[i]],
                        ))
                },
    {
        let mut rows: Vec<String> = Vec::new();
        for kv in it: self.clients.iter()
            invariant
                rows@.len() == it.index(),
                it.seq() == vstd::std_specs::hash::spec_hash_map_iter(&self.clients).remaining(),
                forall|j: int|
                    0 <= j < it.index() ==> (#[trigger] rows@[j])@ == spec_client_row(
                        *it.seq()[j].0,
                        *it.seq()[j].1,
                    ),
        {
            let (id, client) = kv;
            rows.push(format_client_row(*id, client));
        }
        proof {
            let v = vstd::std_specs::hash::spec_hash_map_iter(&self.clients).remaining();
            let ids = Seq::new(v.len(), |i: int| *v[i].0);
            assert(rows@.len() == v.len());
            assert(ids.len() == rows@.len());
            assert forall|id: u16|
                #[trigger] ids.contains(id) <==> self@.clients.contains_key(id) by {
                if ids.contains(id) {
                    let i = choose|i: int| 0 <= i < ids.len() && ids[i] == id;
                    assert(self@.clients.contains_key(*v[i].0));
                }
                if self@.clients.contains_key(id) {
                    assert(v.contains((&id, &self@.clients[id])));
                    let i = choose|i: int|
                        0 <= i < v.len() && v[i] == (&id, &self@.clients[id]);
                    assert(ids[i] == id);
                }
            }
            assert forall|i: int|
                0 <= i < rows@.len() implies (#[trigger] rows@[i])@ == spec_client_row(
                ids[i],
                self@.clients[ids[i]],
            ) by {
                assert(self@.clients.contains_key(*v[i].0) && self@.clients[*v[i].0] == *v[i].1);
            }
        }
        rows
    }
}

/// Applying any well-formed transaction record preserves the ledger
/// invariant [`inv`]: stored transactions stay well-filed, disputed ids
/// stay stored, and every unlocked account keeps `total == available +
/// held` after the step.
pub proof fn lemma_apply_txn_preserves_inv(s: LedgerView, t: Transaction)
    requires
        inv(s),
        t.wf(),
    ensures
        inv(apply_txn(s, t)),
{
    match t.kind {
        TransactionType::Deposit => {
            assert(inv(apply_deposit(s, t)));
        },
        TransactionType::Withdrawal => {
            assert(inv(apply_withdrawal(s, t)));
        },
        TransactionType::Dispute => {
            assert(inv(apply_dispute(s, t)));
        },
        TransactionType::Resolve => {
            assert(inv(apply_resolve(s, t)));
        },
        TransactionType::Chargeback => {
            assert(inv(apply_chargeback(s, t)));
        },
    }
}

} // verus!
