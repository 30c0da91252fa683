use std::time::Duration;

use finance::investment::model::{ExchangeInfo, SymbolInfo};
use finance::investment::quotes::{
    check_quote_request, normalize_input_symbol, plan_quote, resolve_quote_pair, QuoteStep,
    FETCH_QUOTES_DEADLINE_SECS, MAX_QUOTE_SYMBOLS, WS_CONNECT_TIMEOUT_SECS, WS_REQUEST_TIMEOUT_SECS,
};

fn symbol_info(symbol: &str, base: &str, quote: &str) -> SymbolInfo {
    SymbolInfo {
        symbol: symbol.into(),
        status: "TRADING".into(),
        base_asset: base.into(),
        quote_asset: quote.into(),
        asset_type: Some("EQUITY".into()),
        market_type: Some("LEVERAGE".into()),
    }
}

fn exchange_info(symbols: Vec<SymbolInfo>) -> ExchangeInfo {
    ExchangeInfo { timezone: None, server_time: None, symbols }
}

#[test]
fn given_base_asset_when_resolve_quote_pair_then_uses_resolve_trade_pair() {
    let info = exchange_info(vec![
        symbol_info("TSLA/USD_LEVERAGE", "TSLA", "USD"),
        symbol_info("Gold/USD", "Gold", "USD"),
        symbol_info("US500/USD_LEVERAGE", "US500", "USD"),
    ]);
    assert_eq!(resolve_quote_pair(&info, "TSLA").as_deref(), Some("TSLA/USD_LEVERAGE"));
    assert_eq!(resolve_quote_pair(&info, "Gold").as_deref(), Some("Gold/USD"));
    assert_eq!(resolve_quote_pair(&info, "US500").as_deref(), Some("US500/USD_LEVERAGE"));
}

#[test]
fn given_exact_pair_when_resolve_quote_pair_then_returns_same() {
    let info = exchange_info(vec![symbol_info("TON/USD_LEVERAGE", "TON", "USD")]);
    assert_eq!(resolve_quote_pair(&info, "TON/USD_LEVERAGE").as_deref(), Some("TON/USD_LEVERAGE"));
}

#[test]
fn given_bare_index_symbol_when_resolve_quote_pair_then_exact_pair() {
    let info = exchange_info(vec![symbol_info("US500", "US500", "USD"), symbol_info("Gold", "Gold", "USD")]);
    assert_eq!(resolve_quote_pair(&info, "US500").as_deref(), Some("US500"));
    assert_eq!(resolve_quote_pair(&info, "Gold").as_deref(), Some("Gold"));
    assert_eq!(resolve_quote_pair(&info, "Gold.").as_deref(), Some("Gold"));
}

#[test]
fn given_unknown_when_resolve_quote_pair_then_none() {
    let info = exchange_info(vec![symbol_info("BTC/USD", "BTC", "USD")]);
    assert!(resolve_quote_pair(&info, "NOPE").is_none());
    assert!(resolve_quote_pair(&info, " . ").is_none());
}

#[test]
fn timeout_constants_leave_mcp_headroom() {
    assert!(Duration::from_secs(WS_CONNECT_TIMEOUT_SECS).as_secs() <= 3);
    assert!(WS_REQUEST_TIMEOUT_SECS <= 3);
    assert!(Duration::from_secs(FETCH_QUOTES_DEADLINE_SECS).as_secs() <= 25);
    assert!(Duration::from_secs(FETCH_QUOTES_DEADLINE_SECS) > Duration::from_secs(WS_CONNECT_TIMEOUT_SECS));
}

#[test]
fn given_empty_symbols_when_fetch_quotes_then_errors() {
    let err = check_quote_request(0).unwrap_err();
    assert!(err.contains("at least one"), "unexpected error: {err}");
}

#[test]
fn given_too_many_symbols_when_fetch_quotes_then_errors() {
    let err = check_quote_request(MAX_QUOTE_SYMBOLS + 1).unwrap_err();
    assert!(err.contains("at most"), "unexpected error: {err}");
    assert_eq!(err, "trading_quotes accepts at most 30 symbols (got 31)");
    assert!(check_quote_request(MAX_QUOTE_SYMBOLS).is_ok());
}

#[test]
fn normalize_input_strips_dot_then_trims() {
    assert_eq!(normalize_input_symbol(" TSM."), "TSM");
    assert_eq!(normalize_input_symbol("TSM. "), "TSM.");
}

#[test]
fn plan_quote_rows() {
    let info = exchange_info(vec![symbol_info("TSLA/USD_LEVERAGE", "TSLA", "USD")]);
    match plan_quote(&info, "TSLA.", false) {
        QuoteStep::Fetch { symbol, trade_symbol } => {
            assert_eq!(symbol, "TSLA");
            assert_eq!(trade_symbol, "TSLA/USD_LEVERAGE");
        }
        _ => panic!("expected a fetch"),
    }
    match plan_quote(&info, "NOPE", false) {
        QuoteStep::Fail { symbol, error } => {
            assert_eq!(symbol, "NOPE");
            assert_eq!(error, "no trading pair found for symbol NOPE");
        }
        _ => panic!("expected a failure"),
    }
    match plan_quote(&info, "  ", false) {
        QuoteStep::Fail { symbol, error } => {
            assert_eq!(symbol, "  ");
            assert_eq!(error, "empty symbol");
        }
        _ => panic!("expected a failure"),
    }
    match plan_quote(&info, "TSLA", true) {
        QuoteStep::Fail { symbol, error } => {
            assert_eq!(symbol, "TSLA");
            assert_eq!(error, "trading_quotes deadline (20000ms) exceeded; try fewer symbols");
        }
        _ => panic!("expected a failure"),
    }
}
