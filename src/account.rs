use std::collections::HashMap;

use vstd::prelude::*;

use crate::models::{fresh_account, Account, Amount, ClientId};

verus! {

/// A change to one account, as a value: the store applies it inside its
/// own update step, and only to an account that is not locked.
#[derive(Clone, Copy, PartialEq, Eq, Debug, Structural)]
pub enum AccountUpdate {
    /// `available += amount`.
    Deposit(Amount),
    /// `available -= amount`, unless `amount` exceeds `available`.
    Withdrawal(Amount),
    /// `held += amount`, and `available -= amount` too when `from_available`.
    Hold { amount: Amount, from_available: bool },
    /// `available += amount; held -= amount`.
    Release(Amount),
    /// `held -= amount`, `available += amount` when `restore_available`,
    /// and the account becomes locked.
    Reverse { amount: Amount, restore_available: bool },
}

/// Whether `v` is a value of `Amount`.
pub open spec fn amount_in_range(v: int) -> bool {
    i64::MIN <= v <= i64::MAX
}

/// The account with the given balances, or `a` itself when a balance would
/// leave the range of `Amount`: such an update is not applied.
pub open spec fn with_balances(a: Account, available: int, held: int, locked: bool) -> Account {
    if amount_in_range(available) && amount_in_range(held) {
        Account { available: available as i64, held: held as i64, locked }
    } else {
        a
    }
}

/// What `u` makes of the account `a` (the lock is not consulted here).
pub open spec fn apply_update(a: Account, u: AccountUpdate) -> Account {
    match u {
        AccountUpdate::Deposit(x) => with_balances(a, a.available + x, a.held as int, a.locked),
        AccountUpdate::Withdrawal(x) => if x > a.available {
            a
        } else {
            with_balances(a, a.available - x, a.held as int, a.locked)
        },
        AccountUpdate::Hold { amount, from_available } => with_balances(
            a,
            if from_available {
                a.available - amount
            } else {
                a.available as int
            },
            a.held + amount,
            a.locked,
        ),
        AccountUpdate::Release(x) => with_balances(a, a.available + x, a.held - x, a.locked),
        AccountUpdate::Reverse { amount, restore_available } => with_balances(
            a,
            if restore_available {
                a.available + amount
            } else {
                a.available as int
            },
            a.held - amount,
            true,
        ),
    }
}

/// The account of `client_id` in `accounts`, or a fresh one where there is none.
pub open spec fn account_or_fresh(accounts: Map<ClientId, Account>, client_id: ClientId) -> Account {
    if accounts.contains_key(client_id) {
        accounts[client_id]
    } else {
        fresh_account()
    }
}

/// The accounts after `u` is applied to the account of `client_id`: the
/// account is created if missing, and left as it is if locked.
pub open spec fn updated_accounts(
    accounts: Map<ClientId, Account>,
    client_id: ClientId,
    u: AccountUpdate,
) -> Map<ClientId, Account> {
    let a = account_or_fresh(accounts, client_id);
    accounts.insert(client_id, if a.locked { a } else { apply_update(a, u) })
}

fn in_range(v: i128) -> (r: bool)
    ensures
        r == amount_in_range(v as int),
{
    i64::MIN as i128 <= v && v <= i64::MAX as i128
}

impl AccountUpdate {
    /// Applies this update to `account`, whether locked or not.
    pub fn apply(&self, account: &mut Account)
        ensures
            *final(account) == apply_update(*old(account), *self),
    {
        let available = account.available as i128;
        let held = account.held as i128;
        let (new_available, new_held, new_locked): (i128, i128, bool) = match *self {
            AccountUpdate::Deposit(x) => (available + x as i128, held, account.locked),
            AccountUpdate::Withdrawal(x) => {
                if x > account.available {
                    return;
                }
                (available - x as i128, held, account.locked)
            },
            AccountUpdate::Hold { amount, from_available } => {
                let a = if from_available {
                    available - amount as i128
                } else {
                    available
                };
                (a, held + amount as i128, account.locked)
            },
            AccountUpdate::Release(x) => (available + x as i128, held - x as i128, account.locked),
            AccountUpdate::Reverse { amount, restore_available } => {
                let a = if restore_available {
                    available + amount as i128
                } else {
                    available
                };
                (a, held - amount as i128, true)
            },
        };
        if in_range(new_available) && in_range(new_held) {
            *account = Account {
                available: new_available as i64,
                held: new_held as i64,
                locked: new_locked,
            };
        }
    }
}

/// A store of accounts keyed by client.
pub trait AccountEngine {
    /// The accounts held, by client.
    spec fn accounts(&self) -> Map<ClientId, Account>;

    /// Looks up or creates the account of `client_id` and, unless it is
    /// locked, applies `update` to it.
    fn update_account(&mut self, client_id: ClientId, update: AccountUpdate)
        ensures
            final(self).accounts() == updated_accounts(old(self).accounts(), client_id, update),
    ;

    /// A copy of all the accounts.
    fn generate_accounts_summary(&self) -> (r: HashMap<ClientId, Account>)
        ensures
            r@ == self.accounts(),
    ;
}

/// An account store held in memory.
pub struct InMemoryAccountEngine {
    accounts: HashMap<ClientId, Account>,
}

impl InMemoryAccountEngine {
    pub fn new() -> (r: InMemoryAccountEngine)
        ensures
            r.accounts() == Map::<ClientId, Account>::empty(),
    {
        InMemoryAccountEngine { accounts: HashMap::new() }
    }
}

impl AccountEngine for InMemoryAccountEngine {
    closed spec fn accounts(&self) -> Map<ClientId, Account> {
        self.accounts@
    }

    fn update_account(&mut self, client_id: ClientId, update: AccountUpdate) {
        let mut account = match self.accounts.get(&client_id) {
            Some(a) => *a,
            None => Account::new(),
        };
        if !account.locked {
            update.apply(&mut account);
        }
        self.accounts.insert(client_id, account);
    }

    fn generate_accounts_summary(&self) -> (r: HashMap<ClientId, Account>) {
        self.accounts.clone()
    }
}

} // verus!
