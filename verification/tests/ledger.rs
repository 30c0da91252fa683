use finance::investment::model::{ledger_bucket, parse_ledger_type, LedgerBucket, LedgerEntryType};

#[test]
fn ledger_types_parse_ignoring_case_and_separators() {
    assert_eq!(parse_ledger_type("DEPOSIT"), Some(LedgerEntryType::Deposit));
    assert_eq!(parse_ledger_type("withdrawal"), Some(LedgerEntryType::Withdrawal));
    assert_eq!(parse_ledger_type("Trade"), Some(LedgerEntryType::Trade));
    assert_eq!(parse_ledger_type("swap"), Some(LedgerEntryType::Swap));
    assert_eq!(parse_ledger_type("TRADE_COMMISSION"), Some(LedgerEntryType::TradeCommission));
    assert_eq!(parse_ledger_type("commission"), Some(LedgerEntryType::TradeCommission));
    assert_eq!(parse_ledger_type("Exchange Commission"), Some(LedgerEntryType::ExchangeCommission));
    assert_eq!(parse_ledger_type("dividend"), None);
    assert_eq!(parse_ledger_type(""), None);
}

#[test]
fn ledger_rows_fall_into_portfolio_totals() {
    assert_eq!(ledger_bucket(LedgerEntryType::Deposit), LedgerBucket::HistoricalVolume);
    assert_eq!(ledger_bucket(LedgerEntryType::Withdrawal), LedgerBucket::Withdrawal);
    assert_eq!(ledger_bucket(LedgerEntryType::TradeCommission), LedgerBucket::Fee);
    assert_eq!(ledger_bucket(LedgerEntryType::ExchangeCommission), LedgerBucket::Fee);
    assert_eq!(ledger_bucket(LedgerEntryType::Trade), LedgerBucket::Skipped);
    assert_eq!(ledger_bucket(LedgerEntryType::Swap), LedgerBucket::Skipped);
}
