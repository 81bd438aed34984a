//! Turns the fields of one input record into a transaction.

use vstd::prelude::*;

use crate::decimal::{amount_value, parse_amount, parse_unsigned, unsigned_at_most};
use crate::models::{Transaction, TransactionType};

verus! {

/// The text with its leading and trailing whitespace removed.
pub uninterp spec fn trimmed(s: Seq<char>) -> Seq<char>;

/// Relies on `str::trim`: the text without leading and trailing whitespace,
/// which depends on the text alone.
#[verifier::external_body]
fn trim(s: &str) -> (r: &str)
    ensures
        r@ == trimmed(s@),
{
    s.trim()
}

/// The kind of record that a type field names.
pub open spec fn type_named(name: Seq<char>) -> Option<TransactionType> {
    if name == "deposit"@ {
        Some(TransactionType::Deposit)
    } else if name == "withdrawal"@ {
        Some(TransactionType::Withdrawal)
    } else if name == "dispute"@ {
        Some(TransactionType::Dispute)
    } else if name == "resolve"@ {
        Some(TransactionType::Resolve)
    } else if name == "chargeback"@ {
        Some(TransactionType::Chargeback)
    } else {
        None
    }
}

/// Whether a record of this kind carries an amount.
pub open spec fn requires_amount(t: TransactionType) -> bool {
    t == TransactionType::Deposit || t == TransactionType::Withdrawal
}

/// The unsigned integer, at most `max`, in field `index` once trimmed.
pub open spec fn number_field(record: Seq<String>, index: int, max: u64) -> Option<u64> {
    if 0 <= index < record.len() {
        unsigned_at_most(trimmed(record[index]@), max)
    } else {
        None
    }
}

/// The amount in field `index` once trimmed.
pub open spec fn amount_field(record: Seq<String>, index: int) -> Option<i64> {
    if 0 <= index < record.len() {
        amount_value(trimmed(record[index]@))
    } else {
        None
    }
}

/// The transaction of kind `t` that the fields client, id and (for a
/// deposit or withdrawal) amount describe.
pub open spec fn record_transaction(record: Seq<String>, t: TransactionType) -> Option<Transaction> {
    match (number_field(record, 1, u16::MAX as u64), number_field(record, 2, u32::MAX as u64)) {
        (Some(client), Some(id)) => if requires_amount(t) {
            match amount_field(record, 3) {
                Some(a) => Some(
                    Transaction {
                        id: id as u32,
                        client_id: client as u16,
                        transaction_type: t,
                        amount: Some(a),
                        is_disputed: false,
                    },
                ),
                None => None,
            }
        } else {
            Some(
                Transaction {
                    id: id as u32,
                    client_id: client as u16,
                    transaction_type: t,
                    amount: None,
                    is_disputed: false,
                },
            )
        },
        _ => None,
    }
}

/// The transaction that a record `type, client, tx, amount` describes, or
/// `None` where it is malformed.
pub open spec fn transaction_from_record(record: Seq<String>) -> Option<Transaction> {
    if record.len() == 0 {
        None
    } else {
        match type_named(record[0]@) {
            Some(t) => record_transaction(record, t),
            None => None,
        }
    }
}

/// The transactions that the records describe, in order; malformed records
/// are left out.
pub open spec fn transactions_from_records(records: Seq<Vec<String>>) -> Seq<Transaction>
    decreases records.len(),
{
    if records.len() == 0 {
        Seq::empty()
    } else {
        let before = transactions_from_records(records.drop_last());
        match transaction_from_record(records.last()@) {
            Some(t) => before.push(t),
            None => before,
        }
    }
}

fn text_equals(a: &str, b: &str) -> (r: bool)
    ensures
        r == (a@ == b@),
{
    let n = a.unicode_len();
    if n != b.unicode_len() {
        return false;
    }
    let mut i: usize = 0;
    while i < n
        invariant
            n == a@.len() == b@.len(),
            i <= n,
            a@.take(i as int) == b@.take(i as int),
        decreases n - i,
    {
        if a.get_char(i) != b.get_char(i) {
            return false;
        }
        assert(a@.take(i + 1) == a@.take(i as int).push(a@[i as int]));
        assert(b@.take(i + 1) == b@.take(i as int).push(b@[i as int]));
        i = i + 1;
    }
    assert(a@.take(n as int) == a@);
    assert(b@.take(n as int) == b@);
    true
}

/// The kind of record that a type field names.
pub fn transaction_type_named(name: &str) -> (r: Option<TransactionType>)
    ensures
        r == type_named(name@),
{
    if text_equals(name, "deposit") {
        Some(TransactionType::Deposit)
    } else if text_equals(name, "withdrawal") {
        Some(TransactionType::Withdrawal)
    } else if text_equals(name, "dispute") {
        Some(TransactionType::Dispute)
    } else if text_equals(name, "resolve") {
        Some(TransactionType::Resolve)
    } else if text_equals(name, "chargeback") {
        Some(TransactionType::Chargeback)
    } else {
        None
    }
}

/// Reads transactions from the CSV file at a path; the reading itself stands
/// outside this library, which turns each record's fields into a transaction.
pub struct CSVIngestionEngine {
    csv_file_path: String,
}

impl CSVIngestionEngine {
    pub closed spec fn path(&self) -> Seq<char> {
        self.csv_file_path@
    }

    pub fn new(csv_file_path: String) -> (r: CSVIngestionEngine)
        ensures
            r.path() == csv_file_path@,
    {
        CSVIngestionEngine { csv_file_path }
    }

    /// The path of the file to read.
    pub fn csv_file_path(&self) -> (r: &str)
        ensures
            r@ == self.path(),
    {
        self.csv_file_path.as_str()
    }

    /// The transaction that the fields `type, client, tx, amount` of one
    /// record describe; `None` for an unknown type, a client or id that is
    /// not an unsigned integer of its size, or a deposit or withdrawal
    /// without a readable amount.
    pub fn create_transaction_from_csv_record(&self, record: &Vec<String>) -> (r: Option<
        Transaction,
    >)
        ensures
            r == transaction_from_record(record@),
    {
        if record.len() == 0 {
            return None;
        }
        match transaction_type_named(record[0].as_str()) {
            Some(t) => self.parse_number_arguments_and_create_transaction(record, t),
            None => None,
        }
    }

    /// The transactions that `records` describe, in order; malformed records
    /// are skipped.
    pub fn create_transactions_from_csv_records(&self, records: &Vec<Vec<String>>) -> (r: Vec<
        Transaction,
    >)
        ensures
            r@ == transactions_from_records(records@),
    {
        let mut transactions: Vec<Transaction> = Vec::new();
        let mut i: usize = 0;
        while i < records.len()
            invariant
                i <= records.len(),
                transactions@ == transactions_from_records(records@.take(i as int)),
            decreases records.len() - i,
        {
            proof {
                assert(records@.take(i + 1).drop_last() == records@.take(i as int));
            }
            if let Some(t) = self.create_transaction_from_csv_record(&records[i]) {
                transactions.push(t);
            }
            i = i + 1;
        }
        assert(records@.take(records.len() as int) == records@);
        transactions
    }

    /// The transaction of kind `transaction_type` that the fields client,
    /// id and, for a deposit or withdrawal, amount describe.
    pub fn parse_number_arguments_and_create_transaction(
        &self,
        record: &Vec<String>,
        transaction_type: TransactionType,
    ) -> (r: Option<Transaction>)
        ensures
            r == record_transaction(record@, transaction_type),
    {
        let client = match self.parse_number_field(record, 1, u16::MAX as u64) {
            Some(c) => c as u16,
            None => {
                return None;
            },
        };
        let id = match self.parse_number_field(record, 2, u32::MAX as u64) {
            Some(i) => i as u32,
            None => {
                return None;
            },
        };
        if transaction_type == TransactionType::Deposit || transaction_type
            == TransactionType::Withdrawal {
            match self.parse_amount_field(record, 3) {
                Some(a) => Some(
                    Transaction {
                        id,
                        client_id: client,
                        transaction_type,
                        amount: Some(a),
                        is_disputed: false,
                    },
                ),
                None => None,
            }
        } else {
            Some(
                Transaction {
                    id,
                    client_id: client,
                    transaction_type,
                    amount: None,
                    is_disputed: false,
                },
            )
        }
    }

    /// The unsigned integer, at most `max`, in field `index` once trimmed.
    pub fn parse_number_field(&self, record: &Vec<String>, index: usize, max: u64) -> (r: Option<
        u64,
    >)
        ensures
            r == number_field(record@, index as int, max),
    {
        if index >= record.len() {
            return None;
        }
        parse_unsigned(trim(record[index].as_str()), max)
    }

    /// The amount in field `index` once trimmed.
    pub fn parse_amount_field(&self, record: &Vec<String>, index: usize) -> (r: Option<i64>)
        ensures
            r == amount_field(record@, index as int),
    {
        if index >= record.len() {
            return None;
        }
        parse_amount(trim(record[index].as_str()))
    }
}

} // verus!
