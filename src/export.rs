//! The rows of the account summary.

use vstd::prelude::*;

use crate::decimal::{amount_text, format_amount};
use crate::models::{Account, ClientId};

verus! {

/// One row of the summary: `client, available, held, total, locked`.
pub struct AccountCSVRecord {
    pub client: ClientId,
    pub available: String,
    pub held: String,
    pub total: String,
    pub locked: bool,
}

/// Renders accounts as CSV rows; the writing itself stands outside this
/// library.
pub struct CSVExportEngine;

impl CSVExportEngine {
    pub fn new() -> (r: CSVExportEngine) {
        CSVExportEngine
    }

    /// The summary row of the account of `client_id`.
    pub fn account_record(&self, client_id: ClientId, account: &Account) -> (r: AccountCSVRecord)
        ensures
            r.client == client_id,
            r.available@ == amount_text(account.available as int),
            r.held@ == amount_text(account.held as int),
            r.total@ == amount_text(account.available + account.held),
            r.locked == account.locked,
    {
        AccountCSVRecord {
            client: client_id,
            available: format_amount(account.available as i128),
            held: format_amount(account.held as i128),
            total: format_amount(account.total()),
            locked: account.locked,
        }
    }
}

} // verus!
