//! Wallets holding native-currency amounts.
use vstd::prelude::*;

verus! {

/// Amounts in the smallest unit of the native currency.
pub type NativeCurrency = u64;

pub enum WalletKind {
    Bank,
    Cache,
    Broker,
    Crypto,
}

pub struct Wallet {
    pub kind: WalletKind,
    pub amount: NativeCurrency,
}

} // verus!
