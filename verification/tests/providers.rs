use finance::analysis::providers::{
    dominant_recommendation, feed_url, finnhub_url, forward_eps_rows, parse_report_dates,
    select_report_dates,
};

#[test]
fn finnhub_url_encodes_query() {
    assert_eq!(
        finnhub_url("/stock/price-target", &[("symbol", "BRK.B")]),
        "https://finnhub.io/api/v1/stock/price-target?symbol=BRK.B"
    );
    assert_eq!(
        finnhub_url("/calendar/earnings", &[("symbol", "A&B"), ("from", "2026-01-01")]),
        "https://finnhub.io/api/v1/calendar/earnings?symbol=A%26B&from=2026-01-01"
    );
    assert_eq!(finnhub_url("/x", &[]), "https://finnhub.io/api/v1/x");
}

#[test]
fn feed_url_quotes_the_name() {
    assert_eq!(
        feed_url("TSLA", Some("Tesla")),
        "https://news.google.com/rss/search?q=TSLA%20OR%20%22Tesla%22%20stock&hl=en-US&gl=US&ceid=US:en"
    );
    assert_eq!(
        feed_url("TSLA", Some("")),
        "https://news.google.com/rss/search?q=TSLA%20stock&hl=en-US&gl=US&ceid=US:en"
    );
    assert_eq!(feed_url("Ä", None), "https://news.google.com/rss/search?q=%C3%84%20stock&hl=en-US&gl=US&ceid=US:en");
}

#[test]
fn dominant_recommendation_prefers_later_on_ties() {
    assert_eq!(dominant_recommendation(Some(3), Some(5), Some(5), None, Some(1)), Some("hold"));
    assert_eq!(dominant_recommendation(Some(9), None, None, None, None), Some("strong_buy"));
    assert_eq!(dominant_recommendation(None, Some(0), None, None, None), None);
}

#[test]
fn forward_eps_rows_pick_current_and_next_year() {
    let years = vec![Some(2027), None, Some(2024), Some(2026), Some(2026)];
    assert_eq!(forward_eps_rows(&years, 2026), (Some(3), Some(4)));
    assert_eq!(forward_eps_rows(&years, 2027), (Some(0), None));
    assert_eq!(forward_eps_rows(&years, 2030), (None, None));
}

#[test]
fn report_dates_around_now() {
    let day = 86_400_000i64;
    let rows = vec![
        (Some("TSLA".to_string()), Some(10 * day)),
        (Some("tsla".to_string()), Some(3 * day)),
        (None, Some(3 * day)),
        (Some("IBM".to_string()), Some(4 * day)),
        (Some("TSLA".to_string()), None),
        (None, Some(20 * day)),
    ];
    assert_eq!(select_report_dates(&rows, "TSLA", 5 * day), (Some(0), Some(2)));
    assert_eq!(select_report_dates(&rows, "TSLA", 30 * day), (None, Some(5)));
    assert_eq!(select_report_dates(&rows, "MSFT", 0), (Some(2), None));
}

#[test]
fn report_date_parsing() {
    let dates = vec![
        Some("1970-01-02".to_string()),
        Some("2024-02-30".to_string()),
        Some("soon".to_string()),
        None,
        Some("2024-01-02".to_string()),
    ];
    assert_eq!(
        parse_report_dates(&dates),
        vec![Some(86_400_000), None, None, None, Some(1_704_153_600_000)]
    );
}
