//! Expense categories, wallets and period reports.
pub mod category;
pub mod period;
pub mod report;
pub mod wallet;
