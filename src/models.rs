use vstd::prelude::*;

verus! {

/// Identifies a client, and with it the client's account.
pub type ClientId = u16;

/// Identifies a deposit or withdrawal; control records refer to one by it.
pub type TransactionId = u32;

/// An amount of money, in ten-thousandths of a unit (`1.5` is `15000`).
pub type Amount = i64;

/// How many `Amount` units make one whole unit.
pub const AMOUNT_SCALE: i64 = 10000;

#[derive(Clone, Copy, PartialEq, Eq, Debug, Structural)]
pub enum TransactionType {
    Deposit,
    Withdrawal,
    Dispute,
    Resolve,
    Chargeback,
}

/// One input record. For a deposit or a withdrawal `id` is the record's own
/// id; for a dispute, resolve or chargeback it is the id of the deposit or
/// withdrawal that the record refers to.
#[derive(Clone, Copy, Debug)]
pub struct Transaction {
    pub id: TransactionId,
    pub client_id: ClientId,
    pub transaction_type: TransactionType,
    pub amount: Option<Amount>,
    pub is_disputed: bool,
}

/// The balances of one client.
#[derive(Clone, Copy, PartialEq, Eq, Debug, Structural)]
pub struct Account {
    pub available: Amount,
    pub held: Amount,
    pub locked: bool,
}

/// The account that a client has before anything has happened to it.
pub open spec fn fresh_account() -> Account {
    Account { available: 0, held: 0, locked: false }
}

impl Account {
    pub fn new() -> (r: Account)
        ensures
            r == fresh_account(),
    {
        Account { available: 0, held: 0, locked: false }
    }

    /// `available + held`, derived and never stored.
    pub fn total(&self) -> (r: i128)
        ensures
            r == self.available + self.held,
    {
        self.available as i128 + self.held as i128
    }
}

} // verus!
