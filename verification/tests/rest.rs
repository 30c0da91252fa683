use finance::investment::rest::{
    base_url, fetch_order_params, klines_url, ledger_params, my_trades_params, next_page_start,
    signed_url, symbol_first_params, symbol_url, timestamp_params, transactions_params, PAGE_LIMIT,
};
use finance::investment::signing::sign;

#[test]
fn base_url_drops_trailing_slashes() {
    assert_eq!(base_url("https://api-adapter.dzengi.com/api/v2///"), "https://api-adapter.dzengi.com/api/v2");
    assert_eq!(base_url("https://x/api"), "https://x/api");
    assert_eq!(base_url("///"), "");
    assert_eq!(base_url(""), "");
}

#[test]
fn private_query_strings() {
    assert_eq!(timestamp_params(42), "timestamp=42");
    assert_eq!(my_trades_params("BTC/USD_LEVERAGE", 7), "symbol=BTC%2FUSD_LEVERAGE&timestamp=7");
    assert_eq!(fetch_order_params("a b", 1), "orderId=a%20b&timestamp=1");
    assert_eq!(symbol_first_params(None, 5), "timestamp=5");
    assert_eq!(symbol_first_params(Some("AAPL"), 5), "symbol=AAPL&timestamp=5");
}

#[test]
fn ledger_and_transactions_queries_keep_their_order() {
    assert_eq!(
        ledger_params(Some("USD"), Some(10), None, Some(PAGE_LIMIT), Some(5000), 99),
        "timestamp=99&currency=USD&startTime=10&limit=100&recvWindow=5000"
    );
    assert_eq!(ledger_params(None, None, None, None, None, 1), "timestamp=1");
    assert_eq!(
        transactions_params(Some(1), Some(2), Some(3), None, 4),
        "timestamp=4&startTime=1&endTime=2&limit=3"
    );
}

#[test]
fn signed_and_public_urls() {
    let params = "timestamp=1";
    assert_eq!(
        signed_url("https://h", "/account", params, "s3"),
        format!("https://h/account?timestamp=1&signature={}", sign("s3", params))
    );
    assert_eq!(symbol_url("https://h", "/depth", "EUR/USD"), "https://h/depth?symbol=EUR%2FUSD");
    assert_eq!(
        klines_url("https://h", "BTC/USD", "1h"),
        "https://h/klines?symbol=BTC%2FUSD&interval=1h"
    );
}

#[test]
fn ledger_pages_stop_on_short_or_empty_pages() {
    assert_eq!(next_page_start(0, PAGE_LIMIT, 10), None);
    assert_eq!(next_page_start(99, PAGE_LIMIT, 10), None);
    assert_eq!(next_page_start(100, PAGE_LIMIT, 10), Some(11));
    assert_eq!(next_page_start(150, PAGE_LIMIT, 0), Some(1));
}
