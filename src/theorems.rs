//! What holds of every run of the engine, stated over the model of
//! `transaction` and proved.

use vstd::prelude::*;

use crate::account::{account_or_fresh, amount_in_range};
use crate::models::{Account, ClientId, Transaction, TransactionId, TransactionType};
use crate::transaction::{amount_or_zero, empty_state, process_all, step, EngineState};

verus! {

/// The sum of the amounts of the records of `ts` for client `c`.
pub open spec fn deposit_total(ts: Seq<Transaction>, c: ClientId) -> int
    decreases ts.len(),
{
    if ts.len() == 0 {
        0
    } else {
        deposit_total(ts.drop_last(), c) + if ts.last().client_id == c {
            amount_or_zero(ts.last())
        } else {
            0
        }
    }
}

/// After deposits alone, each client's available balance is the sum of its
/// deposits, nothing is held and nothing is locked (where each running sum
/// is a value of `Amount`).
pub proof fn lemma_deposits_accumulate(ts: Seq<Transaction>, c: ClientId)
    requires
        forall|i: int| 0 <= i < ts.len() ==> ts[i].transaction_type == TransactionType::Deposit,
        forall|k: int| 0 <= k <= ts.len() ==> amount_in_range(deposit_total(ts.take(k), c)),
    ensures
        account_or_fresh(process_all(empty_state(), ts).0, c) == (Account {
            available: deposit_total(ts, c) as i64,
            held: 0,
            locked: false,
        }),
    decreases ts.len(),
{
    if ts.len() > 0 {
        let prefix = ts.drop_last();
        assert forall|k: int| 0 <= k <= prefix.len() implies amount_in_range(
            deposit_total(prefix.take(k), c),
        ) by {
            assert(prefix.take(k) == ts.take(k));
        }
        lemma_deposits_accumulate(prefix, c);
        assert(ts.take(ts.len() as int) == ts);
    }
}

/// A withdrawal of more than the client's available balance changes no account.
pub proof fn lemma_overdraft_is_ignored(s: EngineState, t: Transaction, c: ClientId)
    requires
        t.transaction_type == TransactionType::Withdrawal,
        t.amount is Some,
        t.amount.unwrap() > account_or_fresh(s.0, t.client_id).available,
    ensures
        account_or_fresh(step(s, t).0, c) == account_or_fresh(s.0, c),
{
}

/// A dispute on an undisputed deposit of amount `a` moves `a` from available
/// to held; a resolve right after it restores the account as it was, and a
/// chargeback right after it releases `a` from held and locks the account,
/// with available as the dispute left it.
pub proof fn lemma_deposit_dispute_cycle(
    s: EngineState,
    id: TransactionId,
    dispute: Transaction,
    resolve: Transaction,
    chargeback: Transaction,
)
    requires
        s.1.contains_key(id),
        s.1[id].transaction_type == TransactionType::Deposit,
        s.1[id].amount is Some,
        !s.1[id].is_disputed,
        !account_or_fresh(s.0, s.1[id].client_id).locked,
        amount_in_range(account_or_fresh(s.0, s.1[id].client_id).available - s.1[id].amount.unwrap()),
        amount_in_range(account_or_fresh(s.0, s.1[id].client_id).held + s.1[id].amount.unwrap()),
        dispute.transaction_type == TransactionType::Dispute,
        dispute.id == id,
        resolve.transaction_type == TransactionType::Resolve,
        resolve.id == id,
        chargeback.transaction_type == TransactionType::Chargeback,
        chargeback.id == id,
    ensures
        ({
            let c = s.1[id].client_id;
            let a = s.1[id].amount.unwrap();
            let before = account_or_fresh(s.0, c);
            let disputed = step(s, dispute);
            &&& account_or_fresh(disputed.0, c) == Account {
                available: (before.available - a) as i64,
                held: (before.held + a) as i64,
                locked: false,
            }
            &&& account_or_fresh(step(disputed, resolve).0, c) == before
            &&& account_or_fresh(step(disputed, chargeback).0, c) == Account {
                available: (before.available - a) as i64,
                held: before.held,
                locked: true,
            }
        }),
{
}

/// A dispute on an undisputed withdrawal of amount `a` adds `a` to held and
/// leaves available as it is; a chargeback right after it adds `a` back to
/// available, releases it from held and locks the account.
pub proof fn lemma_withdrawal_dispute_cycle(
    s: EngineState,
    id: TransactionId,
    dispute: Transaction,
    chargeback: Transaction,
)
    requires
        s.1.contains_key(id),
        s.1[id].transaction_type == TransactionType::Withdrawal,
        s.1[id].amount is Some,
        !s.1[id].is_disputed,
        !account_or_fresh(s.0, s.1[id].client_id).locked,
        amount_in_range(account_or_fresh(s.0, s.1[id].client_id).available + s.1[id].amount.unwrap()),
        amount_in_range(account_or_fresh(s.0, s.1[id].client_id).held + s.1[id].amount.unwrap()),
        dispute.transaction_type == TransactionType::Dispute,
        dispute.id == id,
        chargeback.transaction_type == TransactionType::Chargeback,
        chargeback.id == id,
    ensures
        ({
            let c = s.1[id].client_id;
            let a = s.1[id].amount.unwrap();
            let before = account_or_fresh(s.0, c);
            let disputed = step(s, dispute);
            &&& account_or_fresh(disputed.0, c) == Account {
                available: before.available,
                held: (before.held + a) as i64,
                locked: false,
            }
            &&& account_or_fresh(step(disputed, chargeback).0, c) == Account {
                available: (before.available + a) as i64,
                held: before.held,
                locked: true,
            }
        }),
{
}

/// No record changes a locked account.
pub proof fn lemma_locked_account_is_frozen(s: EngineState, t: Transaction, c: ClientId)
    requires
        account_or_fresh(s.0, c).locked,
    ensures
        account_or_fresh(step(s, t).0, c) == account_or_fresh(s.0, c),
{
}

/// No sequence of records changes a locked account.
pub proof fn lemma_locked_account_stays_frozen(s: EngineState, ts: Seq<Transaction>, c: ClientId)
    requires
        account_or_fresh(s.0, c).locked,
    ensures
        account_or_fresh(process_all(s, ts).0, c) == account_or_fresh(s.0, c),
    decreases ts.len(),
{
    if ts.len() > 0 {
        lemma_locked_account_stays_frozen(s, ts.drop_last(), c);
        lemma_locked_account_is_frozen(process_all(s, ts.drop_last()), ts.last(), c);
    }
}

/// A dispute on a disputed record, or a resolve or chargeback on an
/// undisputed one, changes nothing.
pub proof fn lemma_refused_transition_is_noop(s: EngineState, t: Transaction)
    requires
        s.1.contains_key(t.id),
        t.transaction_type == TransactionType::Dispute ==> s.1[t.id].is_disputed,
        t.transaction_type == TransactionType::Resolve ==> !s.1[t.id].is_disputed,
        t.transaction_type == TransactionType::Chargeback ==> !s.1[t.id].is_disputed,
        t.transaction_type == TransactionType::Dispute || t.transaction_type
            == TransactionType::Resolve || t.transaction_type == TransactionType::Chargeback,
    ensures
        step(s, t) == s,
{
}

} // verus!
