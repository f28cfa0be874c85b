use rust_decimal::Decimal;
use stateset_core::accounting::{
    create_ledger_entry, record_double_entry, record_expense, record_revenue, record_transaction, LedgerEntryStatus,
    LedgerEntryType,
};
use stateset_core::decimal::{dec_add, dec_sub, DecimalValue};

fn d(mantissa: i128, scale: u32) -> DecimalValue {
    DecimalValue { mantissa, scale }
}

fn num(v: &DecimalValue) -> Decimal {
    Decimal::from_i128_with_scale(v.mantissa, v.scale)
}

fn sum(values: &[DecimalValue]) -> DecimalValue {
    let mut total = DecimalValue::zero();
    for v in values {
        total = dec_add(&total, v);
    }
    total
}

#[test]
fn test_ledger_entry_type_debit() {
    let entry_type = LedgerEntryType::Debit;
    assert_eq!(format!("{:?}", entry_type), "Debit");
}

#[test]
fn test_ledger_entry_type_credit() {
    let entry_type = LedgerEntryType::Credit;
    assert_eq!(format!("{:?}", entry_type), "Credit");
}

#[test]
fn test_ledger_entry_status_pending() {
    let status = LedgerEntryStatus::Pending;
    assert_eq!(format!("{:?}", status), "Pending");
}

#[test]
fn test_ledger_entry_status_posted() {
    let status = LedgerEntryStatus::Posted;
    assert_eq!(format!("{:?}", status), "Posted");
}

#[test]
fn test_double_entry_balance() {
    let (debit, credit) = record_double_entry("Cash", "Revenue", d(10000, 2), "sale", None, None, 0);
    assert_eq!(num(&debit.amount), num(&credit.amount));
    assert_eq!(num(&debit.amount), Decimal::new(10000, 2));
}

#[test]
fn test_transaction_balances_to_zero() {
    let balance = dec_add(&d(50000, 2), &d(-50000, 2));
    assert_eq!(num(&balance), Decimal::ZERO);
}

#[test]
fn test_multiple_entries_balance() {
    let debits = sum(&[d(10000, 2), d(20000, 2), d(5000, 2)]);
    let credits = sum(&[d(15000, 2), d(10000, 2), d(10000, 2)]);
    assert_eq!(num(&debits), num(&credits));
}

#[test]
fn test_common_account_names() {
    let accounts = vec![
        "Cash",
        "Revenue",
        "Expense",
        "Accounts Receivable",
        "Accounts Payable",
        "Inventory",
        "Cost of Goods Sold",
    ];
    for account in accounts {
        assert!(!account.is_empty());
        let (debit, _) = record_double_entry(account, "Cash", d(1, 0), "x", None, None, 0);
        assert_eq!(debit.account, account);
    }
}

#[test]
fn test_general_account() {
    let entry = record_transaction("misc", d(1, 0), 0);
    assert_eq!(entry.account, "General");
}

#[test]
fn test_default_currency_usd() {
    let entry = record_transaction("misc", d(1, 0), 0);
    let currency = entry.currency.as_str();
    assert_eq!(currency, "USD");
    assert_eq!(currency.len(), 3);
}

#[test]
fn test_currency_codes() {
    let currencies = vec!["USD", "EUR", "GBP", "CAD", "JPY"];
    for currency in currencies {
        let e = create_ledger_entry("t", "Cash", LedgerEntryType::Debit, d(1, 0), currency, "x", None, None, 0);
        assert_eq!(e.currency.len(), 3);
        assert!(e.currency.chars().all(|c| c.is_ascii_uppercase()));
    }
}

#[test]
fn test_amount_positive() {
    let amount = d(10000, 2);
    assert!(amount.is_positive());
    assert!(num(&amount) > num(&DecimalValue::zero()));
}

#[test]
fn test_amount_precision() {
    let e = record_transaction("x", d(123456, 2), 0);
    assert_eq!(num(&e.amount), Decimal::new(123456, 2));
}

#[test]
fn test_amount_zero_valid() {
    let e = record_transaction("x", DecimalValue::zero(), 0);
    assert_eq!(num(&e.amount), Decimal::ZERO);
}

#[test]
fn test_amount_decimal_operations() {
    let total = dec_add(&d(10025, 2), &d(5075, 2));
    assert_eq!(num(&total), Decimal::new(15100, 2));
}

#[test]
fn test_transaction_id_uniqueness() {
    let a = record_transaction("a", d(1, 0), 0);
    let b = record_transaction("b", d(1, 0), 0);
    assert_ne!(a.transaction_id, b.transaction_id);
}

#[test]
fn test_entry_id_format() {
    let e = record_transaction("a", d(1, 0), 0);
    assert_eq!(e.id.len(), 36);
    assert_ne!(e.id, "00000000-0000-0000-0000-000000000000");
}

#[test]
fn test_reference_id_optional() {
    let (r, _) = record_revenue(d(1, 0), "x", None, 0);
    assert!(r.reference_id.is_none());
    let (r, _) = record_revenue(d(1, 0), "x", Some("ref".to_string()), 0);
    assert!(r.reference_id.is_some());
}

#[test]
fn test_reference_type_order() {
    let (debit, credit) = record_revenue(d(1, 0), "x", None, 0);
    assert_eq!(debit.reference_type, Some("Order".to_string()));
    assert_eq!(credit.reference_type, Some("Order".to_string()));
}

#[test]
fn test_reference_type_expense() {
    let (debit, _) = record_expense(d(1, 0), "x", None, 0);
    assert_eq!(debit.reference_type, Some("Expense".to_string()));
}

#[test]
fn test_reference_type_none() {
    let e = record_transaction("x", d(1, 0), 0);
    assert!(e.reference_type.is_none());
}

#[test]
fn test_description_not_empty() {
    let description = "Payment received for Order #123";
    assert!(!description.is_empty());
    assert_eq!(record_transaction(description, d(1, 0), 0).description, description);
}

#[test]
fn test_description_length() {
    let description = "Short desc";
    assert!(description.len() <= 500);
}

#[test]
fn test_revenue_accounts() {
    let (debit, credit) = record_revenue(d(25000, 2), "sale", None, 0);
    assert_eq!(debit.account, "Cash");
    assert_eq!(credit.account, "Revenue");
}

#[test]
fn test_revenue_amount_positive() {
    let (debit, _) = record_revenue(d(25000, 2), "sale", None, 0);
    assert!(debit.amount.is_positive());
}

#[test]
fn test_expense_accounts() {
    let (debit, credit) = record_expense(d(7550, 2), "rent", None, 0);
    assert_eq!(debit.account, "Expense");
    assert_eq!(credit.account, "Cash");
}

#[test]
fn test_expense_amount_positive() {
    let (_, credit) = record_expense(d(7550, 2), "rent", None, 0);
    assert!(credit.amount.is_positive());
}

#[test]
fn test_posting_date_now() {
    let e = record_transaction("x", d(1, 0), 1_700_000_000_000);
    assert_eq!(e.posting_date, 1_700_000_000_000);
}

#[test]
fn test_journal_entry_debit_credit_match() {
    let (debit, credit) = record_double_entry("Cash", "Revenue", d(100000, 2), "x", None, None, 0);
    assert_eq!(num(&debit.amount), num(&credit.amount));
    assert_eq!(debit.transaction_id, credit.transaction_id);
    assert_eq!(debit.status, LedgerEntryStatus::Posted);
    assert_eq!(credit.entry_type, LedgerEntryType::Credit);
}

#[test]
fn test_multi_line_journal_entry() {
    let debits = sum(&[d(50000, 2), d(30000, 2), d(20000, 2)]);
    let credits = sum(&[d(100000, 2)]);
    assert_eq!(num(&debits), num(&credits));
}

#[test]
fn test_asset_accounts() {
    for account in vec!["Cash", "Accounts Receivable", "Inventory", "Equipment"] {
        assert!(!account.is_empty());
    }
}

#[test]
fn test_liability_accounts() {
    for account in vec!["Accounts Payable", "Notes Payable", "Unearned Revenue"] {
        assert!(!account.is_empty());
    }
}

#[test]
fn test_equity_accounts() {
    for account in vec!["Owner's Equity", "Retained Earnings", "Common Stock"] {
        assert!(!account.is_empty());
    }
}

#[test]
fn test_revenue_increases_equity() {
    let beginning = d(1000000, 2);
    let ending = dec_add(&beginning, &d(500000, 2));
    assert!(num(&ending) > num(&beginning));
}

#[test]
fn test_expense_decreases_equity() {
    let beginning = d(1000000, 2);
    let ending = dec_sub(&beginning, &d(300000, 2));
    assert!(num(&beginning) > num(&ending));
}

#[test]
fn test_accounting_equation() {
    let assets = d(10000000, 2);
    let total = dec_add(&d(4000000, 2), &d(6000000, 2));
    assert_eq!(num(&assets), num(&total));
}

#[test]
fn test_accounting_equation_after_transaction() {
    let transaction = d(500000, 2);
    let new_assets = dec_add(&d(10000000, 2), &transaction);
    let new_equity = dec_add(&d(6000000, 2), &transaction);
    assert_eq!(num(&new_assets), num(&dec_add(&d(4000000, 2), &new_equity)));
}

#[test]
fn test_database_error_handling() {
    let error_msg = "Database connection failed";
    assert!(!error_msg.is_empty());
}

#[test]
fn test_metadata_none() {
    let e = record_transaction("x", d(1, 0), 0);
    assert!(e.metadata.is_none());
}

#[test]
fn test_created_by_none() {
    let e = record_transaction("x", d(1, 0), 0);
    assert!(e.created_by.is_none());
}

#[test]
fn ledger_entry_starts_pending() {
    let e = create_ledger_entry(
        "tx-1",
        "Inventory",
        LedgerEntryType::Credit,
        d(4200, 2),
        "EUR",
        "restock",
        Some("po-9".to_string()),
        Some("PurchaseOrder".to_string()),
        5,
    );
    assert_eq!(e.transaction_id, "tx-1");
    assert_eq!(e.status, LedgerEntryStatus::Pending);
    assert_eq!(e.reference_type.as_deref(), Some("PurchaseOrder"));
    assert_eq!(e.posting_date, 5);
}
