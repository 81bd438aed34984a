use little_engine::account::{AccountEngine, InMemoryAccountEngine};
use little_engine::models::{Transaction, TransactionType, AMOUNT_SCALE};
use little_engine::transaction::{return_transaction_if_appropriate, InMemoryTransactionEngine};

const TEN: i64 = 10 * AMOUNT_SCALE;

fn tx(id: u32, client_id: u16, transaction_type: TransactionType, amount: Option<i64>) -> Transaction {
    Transaction { id, client_id, transaction_type, amount, is_disputed: false }
}

fn new_engine() -> InMemoryTransactionEngine<InMemoryAccountEngine> {
    InMemoryTransactionEngine::new(InMemoryAccountEngine::new())
}

fn get_transactions(engine: &InMemoryTransactionEngine<InMemoryAccountEngine>) -> Vec<Transaction> {
    engine.committed_transactions().values().cloned().collect()
}

#[test]
fn test_single_transaction() {
    let mut engine = new_engine();
    engine.process_transactions(vec![tx(1, 1, TransactionType::Deposit, Some(TEN))]);
    assert_eq!(get_transactions(&engine).len(), 1);
}

#[test]
fn test_multiple_transactions() {
    let mut engine = new_engine();
    engine.process_transactions(vec![
        tx(1, 1, TransactionType::Deposit, Some(TEN)),
        tx(2, 1, TransactionType::Deposit, Some(TEN)),
    ]);
    assert_eq!(get_transactions(&engine).len(), 2);
}

#[test]
fn test_dispute_only() {
    let mut engine = new_engine();
    engine.process_transactions(vec![
        tx(1, 1, TransactionType::Deposit, Some(TEN)),
        tx(1, 1, TransactionType::Dispute, None),
    ]);
    let processed = get_transactions(&engine);
    assert_eq!(processed.len(), 1);
    assert!(processed[0].is_disputed);
}

#[test]
fn test_dispute_and_resolve() {
    let mut engine = new_engine();
    engine.process_transactions(vec![
        tx(1, 1, TransactionType::Deposit, Some(TEN)),
        tx(1, 1, TransactionType::Dispute, None),
        tx(1, 1, TransactionType::Resolve, None),
    ]);
    let processed = get_transactions(&engine);
    assert_eq!(processed.len(), 1);
    assert!(!processed[0].is_disputed);
}

#[test]
fn duplicate_id_keeps_the_first_record() {
    let mut engine = new_engine();
    engine.process_transactions(vec![
        tx(1, 1, TransactionType::Deposit, Some(TEN)),
        tx(1, 2, TransactionType::Deposit, Some(3 * TEN)),
    ]);
    let ledger = engine.committed_transactions();
    assert_eq!(ledger.len(), 1);
    assert_eq!(ledger.get(&1).unwrap().client_id, 1);
    assert_eq!(ledger.get(&1).unwrap().amount, Some(TEN));
    // Both deposits still reach their accounts.
    let accounts = engine.account_engine().generate_accounts_summary();
    assert_eq!(accounts.get(&1).unwrap().available, TEN);
    assert_eq!(accounts.get(&2).unwrap().available, 3 * TEN);
}

#[test]
fn control_records_are_not_committed() {
    let mut engine = new_engine();
    engine.process_transactions(vec![
        tx(5, 1, TransactionType::Dispute, None),
        tx(6, 1, TransactionType::Resolve, None),
        tx(7, 1, TransactionType::Chargeback, None),
    ]);
    assert_eq!(engine.committed_transactions().len(), 0);
    assert_eq!(engine.account_engine().generate_accounts_summary().len(), 0);
}

#[test]
fn fetch_and_update_follows_the_guards() {
    let mut engine = new_engine();
    engine.process_transactions(vec![tx(1, 1, TransactionType::Deposit, Some(TEN))]);

    assert!(engine.fetch_and_update_transaction_disputed_state(2, TransactionType::Dispute).is_none());
    assert!(engine.fetch_and_update_transaction_disputed_state(1, TransactionType::Resolve).is_none());
    assert!(engine.fetch_and_update_transaction_disputed_state(1, TransactionType::Chargeback).is_none());
    assert!(engine.fetch_and_update_transaction_disputed_state(1, TransactionType::Deposit).is_none());

    let disputed = engine.fetch_and_update_transaction_disputed_state(1, TransactionType::Dispute).unwrap();
    assert!(disputed.is_disputed);
    assert!(engine.fetch_and_update_transaction_disputed_state(1, TransactionType::Dispute).is_none());

    let charged = engine.fetch_and_update_transaction_disputed_state(1, TransactionType::Chargeback).unwrap();
    assert!(charged.is_disputed);

    let resolved = engine.fetch_and_update_transaction_disputed_state(1, TransactionType::Resolve).unwrap();
    assert!(!resolved.is_disputed);
    assert!(!engine.committed_transactions().get(&1).unwrap().is_disputed);
}

#[test]
fn guard_on_a_single_record() {
    let mut record = tx(1, 1, TransactionType::Withdrawal, Some(TEN));
    assert!(return_transaction_if_appropriate(TransactionType::Resolve, &mut record).is_none());
    assert!(!record.is_disputed);
    let r = return_transaction_if_appropriate(TransactionType::Dispute, &mut record).unwrap();
    assert!(r.is_disputed && record.is_disputed);
    assert!(return_transaction_if_appropriate(TransactionType::Withdrawal, &mut record).is_none());
    assert!(record.is_disputed);
}
