//! Dzengi REST / WebSocket data model (plain values only; wire decoding with
//! serde lives with the transport).
use vstd::prelude::*;
use crate::text::{ascii_lower, eq_lit, lower_char, to_chars};

verus! {

/// Kind of a ledger row.
#[derive(Clone, Copy, Debug, PartialEq, Eq, Structural)]
pub enum LedgerEntryType {
    Deposit,
    Withdrawal,
    Trade,
    Swap,
    TradeCommission,
    ExchangeCommission,
}

/// Portfolio total a ledger row adds to.
#[derive(Clone, Copy, Debug, PartialEq, Eq, Structural)]
pub enum LedgerBucket {
    /// Trades and swaps between holdings move no money in or out.
    Skipped,
    HistoricalVolume,
    Withdrawal,
    Fee,
}

/// Deposits count toward the historical volume, withdrawals toward the
/// withdrawn total, both commission kinds toward the fees; trades and swaps
/// are skipped.
pub open spec fn ledger_bucket_spec(t: LedgerEntryType) -> LedgerBucket {
    match t {
        LedgerEntryType::Deposit => LedgerBucket::HistoricalVolume,
        LedgerEntryType::Withdrawal => LedgerBucket::Withdrawal,
        LedgerEntryType::TradeCommission => LedgerBucket::Fee,
        LedgerEntryType::ExchangeCommission => LedgerBucket::Fee,
        LedgerEntryType::Trade => LedgerBucket::Skipped,
        LedgerEntryType::Swap => LedgerBucket::Skipped,
    }
}

/// The portfolio total a ledger row of kind `t` adds to.
pub fn ledger_bucket(t: LedgerEntryType) -> (r: LedgerBucket)
    ensures
        r == ledger_bucket_spec(t),
{
    match t {
        LedgerEntryType::Deposit => LedgerBucket::HistoricalVolume,
        LedgerEntryType::Withdrawal => LedgerBucket::Withdrawal,
        LedgerEntryType::TradeCommission => LedgerBucket::Fee,
        LedgerEntryType::ExchangeCommission => LedgerBucket::Fee,
        LedgerEntryType::Trade => LedgerBucket::Skipped,
        LedgerEntryType::Swap => LedgerBucket::Skipped,
    }
}

/// A ledger type name, ASCII lower-cased, with `_` and spaces dropped.
pub open spec fn ledger_key(s: Seq<char>) -> Seq<char>
    decreases s.len(),
{
    if s.len() == 0 {
        s
    } else if s.last() == '_' || s.last() == ' ' {
        ledger_key(s.drop_last())
    } else {
        ledger_key(s.drop_last()).push(ascii_lower(s.last()))
    }
}

/// Ledger row kind named by `raw` (ASCII case, `_` and spaces ignored;
/// `commission` alone is a trade commission).
pub open spec fn ledger_type_spec(raw: Seq<char>) -> Option<LedgerEntryType> {
    let k = ledger_key(raw);
    if k == "deposit"@ {
        Some(LedgerEntryType::Deposit)
    } else if k == "withdrawal"@ {
        Some(LedgerEntryType::Withdrawal)
    } else if k == "trade"@ {
        Some(LedgerEntryType::Trade)
    } else if k == "swap"@ {
        Some(LedgerEntryType::Swap)
    } else if k == "tradecommission"@ || k == "commission"@ {
        Some(LedgerEntryType::TradeCommission)
    } else if k == "exchangecommission"@ {
        Some(LedgerEntryType::ExchangeCommission)
    } else {
        None
    }
}

/// Parse a ledger row's `type`.
pub fn parse_ledger_type(raw: &str) -> (r: Option<LedgerEntryType>)
    ensures
        r == ledger_type_spec(raw@),
{
    let v = to_chars(raw);
    let mut k: Vec<char> = Vec::new();
    let mut i: usize = 0;
    while i < v.len()
        invariant
            i <= v@.len(),
            k@ == ledger_key(v@.subrange(0, i as int)),
        decreases v@.len() - i,
    {
        let c = v[i];
        assert(v@.subrange(0, i + 1).drop_last() =~= v@.subrange(0, i as int));
        if c != '_' && c != ' ' {
            k.push(lower_char(c));
        }
        i = i + 1;
    }
    assert(v@.subrange(0, v@.len() as int) =~= v@);
    let key = k.as_slice();
    if eq_lit(key, "deposit") {
        Some(LedgerEntryType::Deposit)
    } else if eq_lit(key, "withdrawal") {
        Some(LedgerEntryType::Withdrawal)
    } else if eq_lit(key, "trade") {
        Some(LedgerEntryType::Trade)
    } else if eq_lit(key, "swap") {
        Some(LedgerEntryType::Swap)
    } else if eq_lit(key, "tradecommission") || eq_lit(key, "commission") {
        Some(LedgerEntryType::TradeCommission)
    } else if eq_lit(key, "exchangecommission") {
        Some(LedgerEntryType::ExchangeCommission)
    } else {
        None
    }
}

/// Authentication request payload for the WebSocket API.
pub struct AuthRequest {
    pub op: String,
    pub api_key: String,
    pub signature: String,
    pub timestamp: u64,
}

/// Authentication response from the WebSocket API.
pub struct AuthResponse {
    pub success: bool,
    pub reason: Option<String>,
}

/// Server time response.
pub struct ServerTime {
    pub server_time: u64,
}

/// Currency information.
pub struct Currency {
    pub id: String,
    pub name: String,
    pub symbol: String,
}

/// Symbol information from exchange info.
pub struct SymbolInfo {
    pub symbol: String,
    pub status: String,
    pub base_asset: String,
    pub quote_asset: String,
    /// Dzengi `assetType` (e.g. `EQUITY`, `INDEX`).
    pub asset_type: Option<String>,
    /// Dzengi `marketType` (e.g. `LEVERAGE`, `SPOT`).
    pub market_type: Option<String>,
}

/// Exchange information.
pub struct ExchangeInfo {
    pub timezone: Option<String>,
    pub server_time: Option<u64>,
    pub symbols: Vec<SymbolInfo>,
}

/// Kline (candlestick) row; prices kept as decimal text.
pub struct Kline {
    pub open_time: u64,
    pub open: String,
    pub high: String,
    pub low: String,
    pub close: String,
    pub volume: String,
    pub close_time: Option<u64>,
}

/// Account balance; amounts kept as decimal text.
pub struct Balance {
    pub asset: String,
    pub free: String,
    pub locked: String,
    pub timestamp: Option<u64>,
}

/// Deposit record.
pub struct Deposit {
    pub amount: String,
    pub coin: String,
    pub network: Option<String>,
    pub status: i32,
    pub address: Option<String>,
    pub tx_id: Option<String>,
    pub timestamp: u64,
}

/// Trade record.
pub struct Trade {
    pub symbol: String,
    pub id: String,
    pub order_id: String,
    pub price: String,
    pub qty: String,
    pub quote_qty: Option<String>,
    pub commission: Option<String>,
    pub commission_asset: Option<String>,
    pub time: u64,
    pub is_buyer: bool,
    pub is_maker: bool,
    pub is_best_match: Option<bool>,
}

/// Order information.
pub struct Order {
    pub symbol: String,
    pub order_id: String,
    pub client_order_id: String,
    pub price: String,
    pub orig_qty: String,
    pub executed_qty: String,
    pub cummulative_quote_qty: String,
    pub status: String,
    pub time_in_force: String,
    pub type_: String,
    pub side: String,
    pub stop_price: Option<String>,
    pub time: u64,
    pub update_time: u64,
}

/// Ledger entry.
pub struct LedgerEntry {
    pub id: String,
    pub amount: String,
    pub currency: String,
    pub description: Option<String>,
    pub status: String,
    pub timestamp: u64,
    pub type_: String,
}

/// Deposit / withdrawal transaction.
pub struct Transaction {
    pub id: String,
    pub amount: String,
    pub currency: String,
    pub status: String,
    pub timestamp: u64,
    pub type_: String,
    pub address: Option<String>,
    pub tx_id: Option<String>,
}

/// Trading position details (REST).
pub struct TradingPosition {
    pub symbol: String,
    pub id: Option<String>,
    pub amount: Option<String>,
    pub open_price: Option<String>,
    pub current_price: Option<String>,
    pub profit_loss: Option<String>,
    pub timestamp: Option<u64>,
}

pub struct TradingPositionsResponse {
    pub positions: Vec<TradingPosition>,
}

/// Trading position history row.
pub struct TradingPositionHistory {
    pub symbol: String,
    pub id: Option<String>,
    pub amount: Option<String>,
    pub open_price: Option<String>,
    pub close_price: Option<String>,
    pub profit_loss: Option<String>,
    pub open_timestamp: Option<u64>,
    pub close_timestamp: Option<u64>,
}

pub struct TradingPositionHistoryResponse {
    pub history: Vec<TradingPositionHistory>,
}

/// REST provider credentials.
pub struct ProviderConfig {
    pub base_url: String,
    pub api_key: String,
    pub api_secret: String,
}

/// Deposit status code for a textual status: `PROCESSED` → 1, `PENDING` → 0,
/// `REJECTED` → 2, anything else → -1.
pub open spec fn deposit_status_spec(s: Seq<char>) -> i32 {
    if s == "PROCESSED"@ {
        1
    } else if s == "PENDING"@ {
        0
    } else if s == "REJECTED"@ {
        2
    } else {
        -1i32
    }
}

/// Numeric deposit status from its textual form.
pub fn deposit_status_code(s: &str) -> (r: i32)
    ensures
        r == deposit_status_spec(s@),
{
    let v = crate::text::to_chars(s);
    if crate::text::eq_lit(v.as_slice(), "PROCESSED") {
        1
    } else if crate::text::eq_lit(v.as_slice(), "PENDING") {
        0
    } else if crate::text::eq_lit(v.as_slice(), "REJECTED") {
        2
    } else {
        -1
    }
}

} // verus!
