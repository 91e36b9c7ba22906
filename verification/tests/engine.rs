// End-to-end processing scenarios for the payment engine, with amounts in
// fixed-point ten-thousandths (1.0 == 10000).

use payment_ledger::PaymentEngine;
use payment_ledger::Transaction;
use payment_ledger::TransactionType;

fn txn(kind: TransactionType, client: u16, tx: u32, amount: Option<i64>) -> Transaction {
    Transaction { kind, client, tx, amount }
}

fn base_stream() -> Vec<Transaction> {
    vec![
        txn(TransactionType::Deposit, 1, 1, Some(10000)),
        txn(TransactionType::Deposit, 2, 2, Some(20000)),
        txn(TransactionType::Deposit, 1, 3, Some(20000)),
        txn(TransactionType::Withdrawal, 1, 4, Some(15000)),
        txn(TransactionType::Withdrawal, 2, 5, Some(30000)),
    ]
}

fn run(stream: Vec<Transaction>) -> PaymentEngine {
    let mut engine = PaymentEngine::new();
    for t in stream {
        engine.process_transaction(t);
    }
    engine
}

#[test]
fn can_process_simple_transactions() {
    let engine = run(base_stream());
    if let Some(client) = engine.clients.get(&1) {
        assert_eq!(client.total, 15000);
        assert_eq!(client.available, 15000);
        assert!(!client.locked);
        assert_eq!(client.held, 0);
    }
}

#[test]
fn can_process_chargeback_transactions() {
    let mut stream = base_stream();
    stream.push(txn(TransactionType::Dispute, 1, 3, None));
    stream.push(txn(TransactionType::Resolve, 1, 3, None));
    stream.push(txn(TransactionType::Dispute, 2, 2, None));
    stream.push(txn(TransactionType::Chargeback, 2, 2, None));
    let engine = run(stream);
    if let Some(client) = engine.clients.get(&2) {
        assert_eq!(client.total, 0);
        assert_eq!(client.available, 0);
        assert!(client.locked); // should be locked due to chargeback
        assert_eq!(client.held, 0);
    }
}

#[test]
fn can_process_disputed_transactions() {
    let mut stream = base_stream();
    stream.push(txn(TransactionType::Dispute, 2, 2, None));
    let engine = run(stream);
    if let Some(client) = engine.clients.get(&2) {
        assert_eq!(client.total, 20000);
        assert_eq!(client.available, 0); // available should be 0 due to dispute
        assert!(!client.locked);
        assert_eq!(client.held, 20000);
    }
}

#[test]
fn can_process_resolved_transactions() {
    let mut stream = base_stream();
    stream.push(txn(TransactionType::Dispute, 2, 2, None));
    stream.push(txn(TransactionType::Resolve, 2, 2, None));
    let engine = run(stream);
    if let Some(client) = engine.clients.get(&2) {
        assert_eq!(client.total, 20000);
        assert_eq!(client.available, 20000);
        assert!(!client.locked);
        assert_eq!(client.held, 0); // held should be 0 as dispute is resolved
    }
}

#[test]
fn deposits_and_one_withdrawal_for_one_client() {
    let engine = run(vec![
        txn(TransactionType::Deposit, 1, 1, Some(10000)),
        txn(TransactionType::Deposit, 1, 3, Some(20000)),
        txn(TransactionType::Withdrawal, 1, 4, Some(15000)),
    ]);
    let client = engine.clients.get(&1).expect("account exists");
    assert_eq!(client.available, 15000);
    assert_eq!(client.held, 0);
    assert_eq!(client.total, 15000);
    assert!(!client.locked);
}

#[test]
fn dispute_moves_funds_to_held() {
    let engine = run(vec![
        txn(TransactionType::Deposit, 2, 2, Some(20000)),
        txn(TransactionType::Dispute, 2, 2, None),
    ]);
    let client = engine.clients.get(&2).expect("account exists");
    assert_eq!(client.available, 0);
    assert_eq!(client.held, 20000);
    assert_eq!(client.total, 20000);
    assert!(!client.locked);
}

#[test]
fn chargeback_after_dispute_empties_and_locks() {
    let engine = run(vec![
        txn(TransactionType::Deposit, 2, 2, Some(20000)),
        txn(TransactionType::Dispute, 2, 2, None),
        txn(TransactionType::Chargeback, 2, 2, None),
    ]);
    let client = engine.clients.get(&2).expect("account exists");
    assert_eq!(client.available, 0);
    assert_eq!(client.held, 0);
    assert_eq!(client.total, 0);
    assert!(client.locked);
}

#[test]
fn resolve_after_dispute_restores_available() {
    let engine = run(vec![
        txn(TransactionType::Deposit, 2, 2, Some(20000)),
        txn(TransactionType::Dispute, 2, 2, None),
        txn(TransactionType::Resolve, 2, 2, None),
    ]);
    let client = engine.clients.get(&2).expect("account exists");
    assert_eq!(client.available, 20000);
    assert_eq!(client.held, 0);
    assert_eq!(client.total, 20000);
    assert!(!client.locked);
}
