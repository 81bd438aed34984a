use std::collections::HashMap;

use vstd::prelude::*;

use crate::account::{updated_accounts, AccountEngine, AccountUpdate, InMemoryAccountEngine};
use crate::models::{Account, ClientId, Transaction, TransactionId, TransactionType};

verus! {

/// The accounts, by client, and the ledger of committed deposits and
/// withdrawals, by transaction id.
pub type EngineState = (Map<ClientId, Account>, Map<TransactionId, Transaction>);

/// The state in which no record has been seen.
pub open spec fn empty_state() -> EngineState {
    (Map::empty(), Map::empty())
}

/// The guard of a ledger record for a requested transition: the record after
/// the transition, or `None` where the guard refuses it.
pub open spec fn transition(record: Transaction, requested: TransactionType) -> Option<Transaction> {
    match requested {
        TransactionType::Dispute => if !record.is_disputed {
            Some(Transaction { is_disputed: true, ..record })
        } else {
            None
        },
        TransactionType::Resolve => if record.is_disputed {
            Some(Transaction { is_disputed: false, ..record })
        } else {
            None
        },
        TransactionType::Chargeback => if record.is_disputed {
            Some(record)
        } else {
            None
        },
        _ => None,
    }
}

/// What the ledger hands back for a requested transition on `id`: `None`
/// where no record has that id, or the guard refuses.
pub open spec fn transition_result(
    ledger: Map<TransactionId, Transaction>,
    id: TransactionId,
    requested: TransactionType,
) -> Option<Transaction> {
    if ledger.contains_key(id) {
        transition(ledger[id], requested)
    } else {
        None
    }
}

/// The ledger after a transition on `id` was requested.
pub open spec fn ledger_after_transition(
    ledger: Map<TransactionId, Transaction>,
    id: TransactionId,
    requested: TransactionType,
) -> Map<TransactionId, Transaction> {
    match transition_result(ledger, id, requested) {
        Some(r) => ledger.insert(id, r),
        None => ledger,
    }
}

/// The ledger after `t` is committed: the first record with an id is kept.
pub open spec fn committed(
    ledger: Map<TransactionId, Transaction>,
    t: Transaction,
) -> Map<TransactionId, Transaction> {
    if ledger.contains_key(t.id) {
        ledger
    } else {
        ledger.insert(t.id, t)
    }
}

/// The amount of a deposit or withdrawal record; a record without one moves nothing.
pub open spec fn amount_or_zero(t: Transaction) -> int {
    match t.amount {
        Some(a) => a as int,
        None => 0,
    }
}

/// The account change that a referenced record brings, once a transition on
/// it has been granted.
pub open spec fn update_for_referenced(
    record: Transaction,
    requested: TransactionType,
    amount: i64,
) -> AccountUpdate {
    match requested {
        TransactionType::Dispute => AccountUpdate::Hold {
            amount,
            from_available: record.transaction_type == TransactionType::Deposit,
        },
        TransactionType::Resolve => AccountUpdate::Release(amount),
        _ => AccountUpdate::Reverse {
            amount,
            restore_available: record.transaction_type == TransactionType::Withdrawal,
        },
    }
}

/// The account change that `t` brings on `ledger`, with the client it is for.
pub open spec fn account_change(
    ledger: Map<TransactionId, Transaction>,
    t: Transaction,
) -> Option<(ClientId, AccountUpdate)> {
    match t.transaction_type {
        TransactionType::Deposit => Some(
            (t.client_id, AccountUpdate::Deposit(amount_or_zero(t) as i64)),
        ),
        TransactionType::Withdrawal => Some(
            (t.client_id, AccountUpdate::Withdrawal(amount_or_zero(t) as i64)),
        ),
        _ => match transition_result(ledger, t.id, t.transaction_type) {
            Some(r) => match r.amount {
                Some(a) => Some((r.client_id, update_for_referenced(r, t.transaction_type, a))),
                None => None,
            },
            None => None,
        },
    }
}

/// The accounts after `t`.
pub open spec fn accounts_step(
    accounts: Map<ClientId, Account>,
    ledger: Map<TransactionId, Transaction>,
    t: Transaction,
) -> Map<ClientId, Account> {
    match account_change(ledger, t) {
        Some((c, u)) => updated_accounts(accounts, c, u),
        None => accounts,
    }
}

/// The ledger after `t`: a deposit or withdrawal is committed, a control
/// record requests its transition.
pub open spec fn ledger_step(
    ledger: Map<TransactionId, Transaction>,
    t: Transaction,
) -> Map<TransactionId, Transaction> {
    match t.transaction_type {
        TransactionType::Deposit | TransactionType::Withdrawal => committed(ledger, t),
        _ => ledger_after_transition(ledger, t.id, t.transaction_type),
    }
}

/// The state after one record.
pub open spec fn step(s: EngineState, t: Transaction) -> EngineState {
    (accounts_step(s.0, s.1, t), ledger_step(s.1, t))
}

/// The state after the records of `ts`, in order.
pub open spec fn process_all(s: EngineState, ts: Seq<Transaction>) -> EngineState
    decreases ts.len(),
{
    if ts.len() == 0 {
        s
    } else {
        step(process_all(s, ts.drop_last()), ts.last())
    }
}

/// Applies records to an account store, and keeps the ledger of deposits
/// and withdrawals that later records refer to.
pub struct InMemoryTransactionEngine<A> {
    account_engine: A,
    transactions: HashMap<TransactionId, Transaction>,
}

impl<A: AccountEngine> InMemoryTransactionEngine<A> {
    /// The committed deposits and withdrawals, by id.
    pub closed spec fn ledger(&self) -> Map<TransactionId, Transaction> {
        self.transactions@
    }

    /// The accounts of the store that this engine updates.
    pub closed spec fn accounts(&self) -> Map<ClientId, Account> {
        self.account_engine.accounts()
    }

    pub open spec fn state(&self) -> EngineState {
        (self.accounts(), self.ledger())
    }

    pub fn new(account_engine: A) -> (r: Self)
        ensures
            r.accounts() == account_engine.accounts(),
            r.ledger() == Map::<TransactionId, Transaction>::empty(),
    {
        InMemoryTransactionEngine { account_engine, transactions: HashMap::new() }
    }

    /// The account store.
    pub fn account_engine(&self) -> (r: &A)
        ensures
            r.accounts() == self.accounts(),
    {
        &self.account_engine
    }

    /// A copy of the committed deposits and withdrawals.
    pub fn committed_transactions(&self) -> (r: HashMap<TransactionId, Transaction>)
        ensures
            r@ == self.ledger(),
    {
        self.transactions.clone()
    }

    /// Applies each record of `transactions` in order.
    pub fn process_transactions(&mut self, transactions: Vec<Transaction>)
        ensures
            final(self).state() == process_all(old(self).state(), transactions@),
    {
        let n = transactions.len();
        let mut i: usize = 0;
        while i < n
            invariant
                n == transactions.len(),
                i <= n,
                self.state() == process_all(old(self).state(), transactions@.take(i as int)),
            decreases n - i,
        {
            let transaction = transactions[i];
            let ghost before = self.state();
            match transaction.transaction_type {
                TransactionType::Deposit => self.handle_deposit(&transaction),
                TransactionType::Withdrawal => self.handle_withdrawal(&transaction),
                TransactionType::Dispute => self.handle_dispute(&transaction),
                TransactionType::Resolve => self.handle_resolve(&transaction),
                TransactionType::Chargeback => self.handle_chargeback(&transaction),
            }
            match transaction.transaction_type {
                TransactionType::Deposit | TransactionType::Withdrawal => {
                    self.commit_transaction(transaction)
                },
                _ => {},
            }
            proof {
                let ts = transactions@.take(i + 1);
                assert(ts.drop_last() == transactions@.take(i as int));
                assert(ts.last() == transaction);
                assert(self.state() == step(before, transaction));
            }
            i = i + 1;
        }
        proof {
            assert(transactions@.take(n as int) == transactions@);
        }
    }

    fn handle_deposit(&mut self, transaction: &Transaction)
        requires
            transaction.transaction_type == TransactionType::Deposit,
        ensures
            final(self).accounts() == accounts_step(old(self).accounts(), old(self).ledger(), *transaction),
            final(self).ledger() == old(self).ledger(),
    {
        let amount = match transaction.amount {
            Some(a) => a,
            None => 0,
        };
        self.account_engine.update_account(transaction.client_id, AccountUpdate::Deposit(amount));
    }

    fn handle_withdrawal(&mut self, transaction: &Transaction)
        requires
            transaction.transaction_type == TransactionType::Withdrawal,
        ensures
            final(self).accounts() == accounts_step(old(self).accounts(), old(self).ledger(), *transaction),
            final(self).ledger() == old(self).ledger(),
    {
        let amount = match transaction.amount {
            Some(a) => a,
            None => 0,
        };
        self.account_engine.update_account(
            transaction.client_id,
            AccountUpdate::Withdrawal(amount),
        );
    }

    fn handle_dispute(&mut self, transaction: &Transaction)
        requires
            transaction.transaction_type == TransactionType::Dispute,
        ensures
            final(self).state() == step(old(self).state(), *transaction),
    {
        let referenced = self.fetch_and_update_transaction_disputed_state(
            transaction.id,
            TransactionType::Dispute,
        );
        if let Some(record) = referenced {
            if let Some(amount) = record.amount {
                let from_available = record.transaction_type == TransactionType::Deposit;
                self.account_engine.update_account(
                    record.client_id,
                    AccountUpdate::Hold { amount, from_available },
                );
            }
        }
    }

    fn handle_resolve(&mut self, transaction: &Transaction)
        requires
            transaction.transaction_type == TransactionType::Resolve,
        ensures
            final(self).state() == step(old(self).state(), *transaction),
    {
        let referenced = self.fetch_and_update_transaction_disputed_state(
            transaction.id,
            TransactionType::Resolve,
        );
        if let Some(record) = referenced {
            if let Some(amount) = record.amount {
                self.account_engine.update_account(
                    record.client_id,
                    AccountUpdate::Release(amount),
                );
            }
        }
    }

    fn handle_chargeback(&mut self, transaction: &Transaction)
        requires
            transaction.transaction_type == TransactionType::Chargeback,
        ensures
            final(self).state() == step(old(self).state(), *transaction),
    {
        let referenced = self.fetch_and_update_transaction_disputed_state(
            transaction.id,
            TransactionType::Chargeback,
        );
        if let Some(record) = referenced {
            if let Some(amount) = record.amount {
                let restore_available = record.transaction_type == TransactionType::Withdrawal;
                self.account_engine.update_account(
                    record.client_id,
                    AccountUpdate::Reverse { amount, restore_available },
                );
            }
        }
    }

    /// Requests the transition `transaction_type` on the ledger record
    /// `transaction_id`, and returns the record as it is after the
    /// transition; `None` where there is no such record or its guard refuses.
    pub fn fetch_and_update_transaction_disputed_state(
        &mut self,
        transaction_id: TransactionId,
        transaction_type: TransactionType,
    ) -> (r: Option<Transaction>)
        ensures
            r == transition_result(old(self).ledger(), transaction_id, transaction_type),
            final(self).ledger() == ledger_after_transition(
                old(self).ledger(),
                transaction_id,
                transaction_type,
            ),
            final(self).accounts() == old(self).accounts(),
    {
        match self.transactions.get(&transaction_id) {
            None => None,
            Some(found) => {
                let mut record = *found;
                let r = return_transaction_if_appropriate(transaction_type, &mut record);
                if r.is_some() {
                    self.transactions.insert(transaction_id, record);
                }
                r
            },
        }
    }

    /// Adds a deposit or withdrawal to the ledger, unless its id is there already.
    fn commit_transaction(&mut self, transaction: Transaction)
        ensures
            final(self).ledger() == committed(old(self).ledger(), transaction),
            final(self).accounts() == old(self).accounts(),
    {
        if !self.transactions.contains_key(&transaction.id) {
            self.transactions.insert(transaction.id, transaction);
        }
    }
}

/// Applies the guard of `transaction_type` to `transaction`, updating its
/// dispute flag where the guard lets it through.
pub fn return_transaction_if_appropriate(
    transaction_type: TransactionType,
    transaction: &mut Transaction,
) -> (r: Option<Transaction>)
    ensures
        r == transition(*old(transaction), transaction_type),
        *final(transaction) == match r {
            Some(t) => t,
            None => *old(transaction),
        },
{
    match transaction_type {
        TransactionType::Dispute => {
            if !transaction.is_disputed {
                transaction.is_disputed = true;
                return Some(*transaction);
            }
        },
        TransactionType::Resolve => {
            if transaction.is_disputed {
                transaction.is_disputed = false;
                return Some(*transaction);
            }
        },
        TransactionType::Chargeback => {
            if transaction.is_disputed {
                return Some(*transaction);
            }
        },
        _ => {
            return None;
        },
    }
    None
}

/// Applies `transactions` in order to fresh stores and returns the accounts
/// that result.
pub fn process_transactions(transactions: Vec<Transaction>) -> (r: HashMap<ClientId, Account>)
    ensures
        r@ == process_all(empty_state(), transactions@).0,
{
    let mut engine = InMemoryTransactionEngine::new(InMemoryAccountEngine::new());
    engine.process_transactions(transactions);
    engine.account_engine().generate_accounts_summary()
}

} // verus!
