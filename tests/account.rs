use little_engine::account::{AccountEngine, AccountUpdate, InMemoryAccountEngine};
use little_engine::models::{Account, ClientId, AMOUNT_SCALE};

const TEN: i64 = 10 * AMOUNT_SCALE;

fn get_account(engine: &InMemoryAccountEngine, client_id: ClientId) -> Account {
    *engine.generate_accounts_summary().get(&client_id).unwrap()
}

#[test]
fn test_update_account() {
    let mut engine = InMemoryAccountEngine::new();
    let client_id = 1;

    engine.update_account(client_id, AccountUpdate::Deposit(TEN));

    let account = get_account(&engine, client_id);
    assert_eq!(account.available, TEN);
    assert_eq!(account.total(), TEN as i128);
}

#[test]
fn test_update_account_sequential() {
    let mut engine = InMemoryAccountEngine::new();
    let client_id = 1;

    engine.update_account(client_id, AccountUpdate::Deposit(TEN));
    engine.update_account(client_id, AccountUpdate::Deposit(TEN));

    let account = get_account(&engine, client_id);
    assert_eq!(account.available, 2 * TEN);
    assert_eq!(account.total(), 2 * TEN as i128);
}

#[test]
fn test_update_account_multiple_accounts() {
    let mut engine = InMemoryAccountEngine::new();
    let first_client_id = 1;
    let second_client_id = 2;

    engine.update_account(first_client_id, AccountUpdate::Deposit(TEN));
    engine.update_account(second_client_id, AccountUpdate::Deposit(TEN));

    assert_eq!(get_account(&engine, first_client_id).available, TEN);
    assert_eq!(get_account(&engine, second_client_id).available, TEN);
}

#[test]
fn test_update_account_lock() {
    let mut engine = InMemoryAccountEngine::new();
    let client_id = 1;

    engine.update_account(client_id, AccountUpdate::Deposit(TEN));
    engine.update_account(client_id, AccountUpdate::Reverse { amount: 0, restore_available: false });
    engine.update_account(client_id, AccountUpdate::Deposit(TEN));

    let account = get_account(&engine, client_id);
    assert_eq!(account.available, TEN);
    assert!(account.locked);
}

#[test]
fn test_generate_accounts_summary() {
    let mut engine = InMemoryAccountEngine::new();
    let client_id = 1;

    engine.update_account(client_id, AccountUpdate::Deposit(TEN));
    let accounts_summary = engine.generate_accounts_summary();

    assert_eq!(accounts_summary.len(), 1);
    assert_eq!(accounts_summary.get(&client_id).unwrap().available, TEN);
    assert_eq!(accounts_summary.get(&client_id).unwrap().total(), TEN as i128);
}

#[test]
fn new_account_is_zero_and_unlocked() {
    let account = Account::new();
    assert_eq!(account, Account { available: 0, held: 0, locked: false });
    assert_eq!(account.total(), 0);
}

#[test]
fn update_creates_missing_account_even_when_refused() {
    let mut engine = InMemoryAccountEngine::new();
    engine.update_account(7, AccountUpdate::Withdrawal(TEN));
    let summary = engine.generate_accounts_summary();
    assert_eq!(summary.len(), 1);
    assert_eq!(*summary.get(&7).unwrap(), Account::new());
}

#[test]
fn withdrawal_within_available_is_applied() {
    let mut account = Account { available: 3 * TEN, held: 0, locked: false };
    AccountUpdate::Withdrawal(TEN).apply(&mut account);
    assert_eq!(account, Account { available: 2 * TEN, held: 0, locked: false });
}

#[test]
fn withdrawal_over_available_is_ignored() {
    let mut account = Account { available: TEN, held: 5, locked: false };
    AccountUpdate::Withdrawal(TEN + 1).apply(&mut account);
    assert_eq!(account, Account { available: TEN, held: 5, locked: false });
}

#[test]
fn hold_from_available_and_release() {
    let mut account = Account { available: TEN, held: 0, locked: false };
    AccountUpdate::Hold { amount: 4, from_available: true }.apply(&mut account);
    assert_eq!(account, Account { available: TEN - 4, held: 4, locked: false });
    AccountUpdate::Release(4).apply(&mut account);
    assert_eq!(account, Account { available: TEN, held: 0, locked: false });
}

#[test]
fn hold_without_debit_then_reverse_with_restore() {
    let mut account = Account { available: TEN, held: 0, locked: false };
    AccountUpdate::Hold { amount: 4, from_available: false }.apply(&mut account);
    assert_eq!(account, Account { available: TEN, held: 4, locked: false });
    AccountUpdate::Reverse { amount: 4, restore_available: true }.apply(&mut account);
    assert_eq!(account, Account { available: TEN + 4, held: 0, locked: true });
}

#[test]
fn update_that_would_overflow_is_not_applied() {
    let mut account = Account { available: i64::MAX - 1, held: 0, locked: false };
    AccountUpdate::Deposit(2).apply(&mut account);
    assert_eq!(account, Account { available: i64::MAX - 1, held: 0, locked: false });
    AccountUpdate::Deposit(1).apply(&mut account);
    assert_eq!(account.available, i64::MAX);
    assert_eq!(account.total(), i64::MAX as i128);
}
