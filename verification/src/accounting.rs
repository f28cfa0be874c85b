//! Ledger entries and balanced double-entry postings.
use vstd::prelude::*;
use crate::agentic::model::clone_opt;
use crate::agentic::session::{new_uuid, uuid_text};
use crate::decimal::DecimalValue;
use crate::text::owned;

verus! {

#[derive(Debug, Clone, Copy, PartialEq, Eq, Structural)]
pub enum LedgerEntryType {
    Debit,
    Credit,
}

#[derive(Debug, Clone, Copy, PartialEq, Eq, Structural)]
pub enum LedgerEntryStatus {
    Pending,
    Posted,
}

/// One line of the ledger. Identifiers are UUID text; the posting date is
/// in milliseconds since the Unix epoch.
#[derive(Debug, Clone)]
pub struct LedgerEntry {
    pub id: String,
    pub transaction_id: String,
    pub account: String,
    pub entry_type: LedgerEntryType,
    pub amount: DecimalValue,
    pub currency: String,
    pub description: String,
    pub reference_id: Option<String>,
    pub reference_type: Option<String>,
    pub status: LedgerEntryStatus,
    pub posting_date: i64,
    pub metadata: Option<String>,
    pub created_by: Option<String>,
}

/// Whether `e` is an entry of the given transaction, account, kind,
/// amount, currency, description, reference and status, posted at `now`.
pub open spec fn is_entry(
    e: LedgerEntry,
    transaction_id: Seq<char>,
    account: Seq<char>,
    kind: LedgerEntryType,
    amount: DecimalValue,
    currency: Seq<char>,
    description: Seq<char>,
    reference_id: Option<String>,
    reference_type: Option<String>,
    status: LedgerEntryStatus,
    now: i64,
) -> bool {
    &&& e.transaction_id@ == transaction_id
    &&& e.account@ == account
    &&& e.entry_type == kind
    &&& e.amount == amount
    &&& e.currency@ == currency
    &&& e.description@ == description
    &&& e.reference_id == reference_id
    &&& e.reference_type == reference_type
    &&& e.status == status
    &&& e.posting_date == now
    &&& e.metadata is None
    &&& e.created_by is None
    &&& uuid_text(e.id@)
}

/// A pending entry of a transaction, with a fresh id.
pub fn create_ledger_entry(
    transaction_id: &str,
    account: &str,
    entry_type: LedgerEntryType,
    amount: DecimalValue,
    currency: &str,
    description: &str,
    reference_id: Option<String>,
    reference_type: Option<String>,
    now: i64,
) -> (e: LedgerEntry)
    ensures
        is_entry(e, transaction_id@, account@, entry_type, amount, currency@, description@, reference_id, reference_type,
            LedgerEntryStatus::Pending, now),
{
    LedgerEntry {
        id: new_uuid(),
        transaction_id: owned(transaction_id),
        account: owned(account),
        entry_type,
        amount,
        currency: owned(currency),
        description: owned(description),
        reference_id,
        reference_type,
        status: LedgerEntryStatus::Pending,
        posting_date: now,
        metadata: None,
        created_by: None,
    }
}

/// A single pending USD debit to the `General` account, in a new
/// transaction.
pub fn record_transaction(description: &str, amount: DecimalValue, now: i64) -> (e: LedgerEntry)
    ensures
        e.account@ == "General"@,
        e.entry_type == LedgerEntryType::Debit,
        e.amount == amount,
        e.currency@ == "USD"@,
        e.description@ == description@,
        e.reference_id is None && e.reference_type is None,
        e.status == LedgerEntryStatus::Pending,
        e.posting_date == now,
        uuid_text(e.id@),
        uuid_text(e.transaction_id@),
{
    let transaction_id = new_uuid();
    create_ledger_entry(transaction_id.as_str(), "General", LedgerEntryType::Debit, amount, "USD", description, None, None, now)
}

/// The signed effect of an entry: debits count up, credits down.
pub open spec fn signed(e: LedgerEntry) -> int {
    match e.entry_type {
        LedgerEntryType::Debit => e.amount.value(),
        LedgerEntryType::Credit => -e.amount.value(),
    }
}

/// A balanced, posted pair in one new USD transaction: a debit of `amount`
/// to one account and a credit of `amount` to the other.
pub fn record_double_entry(
    debit_account: &str,
    credit_account: &str,
    amount: DecimalValue,
    description: &str,
    reference_id: Option<String>,
    reference_type: Option<String>,
    now: i64,
) -> (r: (LedgerEntry, LedgerEntry))
    ensures
        r.0.transaction_id == r.1.transaction_id,
        uuid_text(r.0.transaction_id@),
        is_entry(r.0, r.0.transaction_id@, debit_account@, LedgerEntryType::Debit, amount, "USD"@, description@, reference_id,
            reference_type, LedgerEntryStatus::Posted, now),
        is_entry(r.1, r.0.transaction_id@, credit_account@, LedgerEntryType::Credit, amount, "USD"@, description@,
            reference_id, reference_type, LedgerEntryStatus::Posted, now),
{
    let transaction_id = new_uuid();
    let debit = LedgerEntry {
        id: new_uuid(),
        transaction_id: transaction_id.clone(),
        account: owned(debit_account),
        entry_type: LedgerEntryType::Debit,
        amount,
        currency: owned("USD"),
        description: owned(description),
        reference_id: clone_opt(&reference_id),
        reference_type: clone_opt(&reference_type),
        status: LedgerEntryStatus::Posted,
        posting_date: now,
        metadata: None,
        created_by: None,
    };
    let credit = LedgerEntry {
        id: new_uuid(),
        transaction_id,
        account: owned(credit_account),
        entry_type: LedgerEntryType::Credit,
        amount,
        currency: owned("USD"),
        description: owned(description),
        reference_id,
        reference_type,
        status: LedgerEntryStatus::Posted,
        posting_date: now,
        metadata: None,
        created_by: None,
    };
    (debit, credit)
}

/// Revenue: debit `Cash`, credit `Revenue`, referring to an order.
pub fn record_revenue(amount: DecimalValue, description: &str, reference_id: Option<String>, now: i64) -> (r: (LedgerEntry, LedgerEntry))
    ensures
        r.0.account@ == "Cash"@ && r.1.account@ == "Revenue"@,
        r.0.entry_type == LedgerEntryType::Debit && r.1.entry_type == LedgerEntryType::Credit,
        r.0.amount == amount && r.1.amount == amount,
        r.0.transaction_id == r.1.transaction_id,
        r.0.reference_id == reference_id && r.1.reference_id == reference_id,
        r.0.reference_type matches Some(t) && t@ == "Order"@,
        r.1.reference_type matches Some(t) && t@ == "Order"@,
        r.0.description@ == description@ && r.1.description@ == description@,
        r.0.currency@ == "USD"@ && r.1.currency@ == "USD"@,
        r.0.status == LedgerEntryStatus::Posted && r.1.status == LedgerEntryStatus::Posted,
        r.0.posting_date == now && r.1.posting_date == now,
{
    record_double_entry("Cash", "Revenue", amount, description, reference_id, Some(owned("Order")), now)
}

/// Expense: debit `Expense`, credit `Cash`.
pub fn record_expense(amount: DecimalValue, description: &str, reference_id: Option<String>, now: i64) -> (r: (LedgerEntry, LedgerEntry))
    ensures
        r.0.account@ == "Expense"@ && r.1.account@ == "Cash"@,
        r.0.entry_type == LedgerEntryType::Debit && r.1.entry_type == LedgerEntryType::Credit,
        r.0.amount == amount && r.1.amount == amount,
        r.0.transaction_id == r.1.transaction_id,
        r.0.reference_id == reference_id && r.1.reference_id == reference_id,
        r.0.reference_type matches Some(t) && t@ == "Expense"@,
        r.1.reference_type matches Some(t) && t@ == "Expense"@,
        r.0.description@ == description@ && r.1.description@ == description@,
        r.0.currency@ == "USD"@ && r.1.currency@ == "USD"@,
        r.0.status == LedgerEntryStatus::Posted && r.1.status == LedgerEntryStatus::Posted,
        r.0.posting_date == now && r.1.posting_date == now,
{
    record_double_entry("Expense", "Cash", amount, description, reference_id, Some(owned("Expense")), now)
}

/// The two entries of a double-entry posting balance to zero.
pub proof fn law_double_entry_balances(debit: LedgerEntry, credit: LedgerEntry)
    requires
        debit.entry_type == LedgerEntryType::Debit,
        credit.entry_type == LedgerEntryType::Credit,
        debit.amount == credit.amount,
    ensures
        signed(debit) + signed(credit) == 0,
{
}

} // verus!
