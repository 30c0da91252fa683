use finance::investment::model::{Currency, ExchangeInfo, SymbolInfo};
use finance::investment::routes::{
    asset_class_fallback, asset_class_from_dzengi, classify_asset, lookup_symbol, name_table,
    new_pair, normalize_symbol, resolve_asset_name, resolve_trade_pair, AssetClass,
};

fn symbol_info(symbol: &str, base: &str, quote: &str) -> SymbolInfo {
    SymbolInfo {
        symbol: symbol.into(),
        status: "TRADING".into(),
        base_asset: base.into(),
        quote_asset: quote.into(),
        asset_type: None,
        market_type: None,
    }
}

fn symbol_info_typed(
    symbol: &str,
    base: &str,
    quote: &str,
    asset_type: &str,
    market_type: &str,
) -> SymbolInfo {
    SymbolInfo {
        symbol: symbol.into(),
        status: "TRADING".into(),
        base_asset: base.into(),
        quote_asset: quote.into(),
        asset_type: Some(asset_type.into()),
        market_type: Some(market_type.into()),
    }
}

fn exchange_info(symbols: Vec<SymbolInfo>) -> ExchangeInfo {
    ExchangeInfo { timezone: None, server_time: None, symbols }
}

fn names(rows: &[(&str, &str)]) -> Vec<(String, String)> {
    rows.iter().map(|(s, n)| (s.to_string(), n.to_string())).collect()
}

#[test]
fn given_usd_quoted_and_other_pairs_when_resolve_trade_pair_then_prefers_base_usd() {
    let info = exchange_info(vec![
        symbol_info("BTC/EUR", "BTC", "EUR"),
        symbol_info("BTC/USD", "BTC", "USD"),
        symbol_info("ETH/BTC", "ETH", "BTC"),
    ]);
    let resolved = resolve_trade_pair(&info, "BTC");
    assert_eq!(resolved, Some(("BTC/USD".to_string(), true)));
}

#[test]
fn given_asset_only_as_quote_when_resolve_trade_pair_then_asset_is_not_base() {
    let info = exchange_info(vec![symbol_info("USD/BYN", "USD", "BYN")]);
    let resolved = resolve_trade_pair(&info, "BYN");
    assert_eq!(resolved, Some(("USD/BYN".to_string(), false)));
}

#[test]
fn given_unknown_asset_when_resolve_trade_pair_then_returns_none() {
    let info = exchange_info(vec![symbol_info("BTC/USD", "BTC", "USD")]);
    let resolved = resolve_trade_pair(&info, "NOPE");
    assert!(resolved.is_none());
}

#[test]
fn resolve_trade_pair_takes_shortest_then_first() {
    let info = exchange_info(vec![
        symbol_info("TSLA/USD_LEVERAGE", "TSLA", "USD"),
        symbol_info("TSLA/USD", "TSLA", "USD"),
        symbol_info("TSLA/USX", "TSLA", "USD"),
    ]);
    assert_eq!(resolve_trade_pair(&info, "TSLA"), Some(("TSLA/USD".to_string(), true)));
}

#[test]
fn resolve_trade_pair_falls_back_to_base_then_quote_then_name() {
    let info = exchange_info(vec![
        symbol_info("ETH/BTC", "ETH", "BTC"),
        symbol_info("XAU/EUR", "XAU", "EUR"),
        symbol_info("EUR/GBP", "EUR", "GBP"),
        symbol_info("SOLANA", "SOLX", "USD"),
    ]);
    assert_eq!(resolve_trade_pair(&info, "XAU"), Some(("XAU/EUR".to_string(), true)));
    assert_eq!(resolve_trade_pair(&info, "GBP"), Some(("EUR/GBP".to_string(), false)));
    assert_eq!(resolve_trade_pair(&info, "SOL"), Some(("SOLANA".to_string(), false)));
    assert_eq!(resolve_trade_pair(&info, "BYN"), Some(("USD/BYN".to_string(), false)));
}

#[test]
fn given_currency_map_when_resolve_asset_name_then_returns_display_name() {
    let table = names(&[("TSM", "Taiwan Semiconductor")]);
    let name = resolve_asset_name(&table, "TSM");
    assert_eq!(name.as_deref(), Some("Taiwan Semiconductor"));
}

#[test]
fn given_leverage_symbol_when_resolve_asset_name_then_looks_up_base_ticker() {
    let table = names(&[("TSM", "Taiwan Semiconductor")]);
    let name = resolve_asset_name(&table, "TSM/USD_LEVERAGE");
    assert_eq!(name.as_deref(), Some("Taiwan Semiconductor"));
}

#[test]
fn given_leverage_only_symbol_when_resolve_asset_name_then_returns_none() {
    let table: Vec<(String, String)> = Vec::new();
    let name = resolve_asset_name(&table, "FOO/USD_LEVERAGE");
    assert!(name.is_none());
}

#[test]
fn resolve_asset_name_later_row_wins() {
    let currencies = vec![
        Currency { id: "1".into(), name: "Old".into(), symbol: "TSM".into() },
        Currency { id: "2".into(), name: "New".into(), symbol: "TSM".into() },
    ];
    let table = name_table(&currencies);
    assert_eq!(table.len(), 2);
    assert_eq!(resolve_asset_name(&table, "TSM").as_deref(), Some("New"));
}

#[test]
fn given_symbol_with_trailing_dot_when_normalize_symbol_then_strips_dot() {
    let raw = "TSM.";
    let symbol = normalize_symbol(raw);
    assert_eq!(symbol, "TSM");
    assert_eq!(normalize_symbol("TSM"), "TSM");
    assert_eq!(normalize_symbol("TSM.."), "TSM.");
}

#[test]
fn given_leverage_pair_when_lookup_symbol_then_returns_base_ticker() {
    let raw = "TSM/USD_LEVERAGE";
    let key = lookup_symbol(raw);
    assert_eq!(key, "TSM");
}

#[test]
fn given_index_cfd_when_lookup_symbol_then_maps_to_yahoo_index() {
    assert_eq!(lookup_symbol("US500"), "^GSPC");
    assert_eq!(lookup_symbol("US100"), "^NDX");
    assert_eq!(lookup_symbol("US30"), "^DJI");
}

#[test]
fn given_gold_when_lookup_symbol_then_maps_to_gc_futures() {
    assert_eq!(lookup_symbol("Gold"), "GC=F");
    assert_eq!(lookup_symbol("XAUUSD"), "GC=F");
    assert_ne!(lookup_symbol("Gold"), "GOLD");
}

#[test]
fn given_ton_variants_when_lookup_symbol_then_maps_to_toncoin_yahoo_id() {
    assert_eq!(lookup_symbol("TON"), "TON11419-USD");
    assert_eq!(lookup_symbol("TON/USD_LEVERAGE"), "TON11419-USD");
    assert_eq!(lookup_symbol("TON/USD"), "TON11419-USD");
    assert_eq!(lookup_symbol("TONCOIN"), "TON11419-USD");
    assert_ne!(lookup_symbol("TON"), "TON-USD");
}

#[test]
fn given_us500_when_lookup_symbol_then_maps_to_caret_gspc_not_bare_gspc() {
    assert_eq!(lookup_symbol("US500"), "^GSPC");
    assert_ne!(lookup_symbol("US500"), "GSPC");
    assert_ne!(lookup_symbol("US500"), "SPY");
}

#[test]
fn lookup_symbol_other_indices() {
    assert_eq!(lookup_symbol("DAX"), "^GDAXI");
    assert_eq!(lookup_symbol("FTSE"), "^FTSE");
    assert_eq!(lookup_symbol("NIKKEI."), "^N225");
    assert_eq!(lookup_symbol("AAPL"), "AAPL");
}

#[test]
fn given_index_cfd_when_classify_asset_then_uses_exchange_info() {
    let info = exchange_info(vec![symbol_info_typed("US500", "US500", "USD", "INDEX", "LEVERAGE")]);
    let (class, leverage) = classify_asset("US500", &info);
    assert_eq!(class, AssetClass::Index);
    assert!(leverage);
}

#[test]
fn given_missing_asset_type_when_classify_gold_then_falls_back_to_commodity() {
    let (class, leverage) = classify_asset("Gold", &exchange_info(vec![]));
    assert_eq!(class, AssetClass::Commodity);
    assert!(!leverage);
}

#[test]
fn given_ton_leverage_when_classify_then_crypto_and_levered() {
    let (class, leverage) = classify_asset("TON/USD_LEVERAGE", &exchange_info(vec![]));
    assert_eq!(class, AssetClass::Crypto);
    assert!(leverage);
}

#[test]
fn classify_asset_reads_trimmed_symbol_row_and_market_case() {
    let info = exchange_info(vec![symbol_info_typed("TSM", "TSM", "USD", "equity", "leverage")]);
    assert_eq!(classify_asset("TSM.", &info), (AssetClass::Equity, true));
    let info = exchange_info(vec![symbol_info_typed("BOND1", "BOND1", "USD", "MYSTERY", "SPOT")]);
    assert_eq!(classify_asset("BOND1", &info), (AssetClass::Other, false));
}

#[test]
fn asset_class_tables() {
    assert_eq!(asset_class_from_dzengi("cryptocurrency"), Some(AssetClass::Crypto));
    assert_eq!(asset_class_from_dzengi("CURRENCY"), Some(AssetClass::Fx));
    assert_eq!(asset_class_from_dzengi("REAL_ESTATE"), Some(AssetClass::Other));
    assert_eq!(asset_class_from_dzengi("??"), None);
    assert_eq!(asset_class_fallback("Silver."), AssetClass::Commodity);
    assert_eq!(asset_class_fallback("WMT/USD_LEVERAGE"), AssetClass::Equity);
    assert_eq!(asset_class_fallback("AAPL"), AssetClass::Other);
}

#[test]
fn new_pair_joins_with_slash() {
    assert_eq!(new_pair("BTC", "USD"), "BTC/USD");
}
