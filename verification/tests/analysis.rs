use finance::analysis::earnings_calendar::{
    calendar_events, earnings_error, equity_book_targets, explicit_targets, finnhub_earnings_symbol,
    in_window, should_emit, CalendarRow, EarningsAnswer, EarningsCalendarQuery, DAY_MS,
};
use finance::analysis::selection::{
    analysis_includes_from_positions, filter_symbols, missing_history_error,
    plan_symbol_analysis, positions_want_trades, require_symbols, should_attach_targets,
    symbols_match, wants_block, AnalysisInclude, HoldingRef, PositionsInclude,
};
use finance::investment::routes::AssetClass;

fn holding(symbol: &str, class: AssetClass) -> HoldingRef {
    HoldingRef { symbol: symbol.into(), name: Some(format!("{symbol} Corp")), asset_class: class }
}

#[test]
fn given_gold_us500_ton_when_finnhub_earnings_symbol_then_rejects() {
    for s in ["Gold", "US500", "TON", "TON/USD_LEVERAGE"] {
        let err = finnhub_earnings_symbol(s).unwrap_err();
        assert!(err.contains("not a Finnhub equity ticker"), "symbol {s}: {err}");
    }
}

#[test]
fn given_equity_broker_symbol_when_finnhub_earnings_symbol_then_bare_ticker() {
    assert_eq!(finnhub_earnings_symbol("TSLA").unwrap(), "TSLA");
    assert_eq!(finnhub_earnings_symbol("TSM.").unwrap(), "TSM");
    assert_eq!(finnhub_earnings_symbol("IBM/USD_LEVERAGE").unwrap(), "IBM");
}

#[test]
fn finnhub_earnings_symbol_messages() {
    assert_eq!(
        finnhub_earnings_symbol("US500").unwrap_err(),
        "finnhub earnings map for US500: key ^GSPC is not a Finnhub equity ticker (wrong instrument or non-equity)"
    );
    assert_eq!(
        finnhub_earnings_symbol("").unwrap_err(),
        "finnhub earnings map for : empty lookup key"
    );
    assert_eq!(finnhub_earnings_symbol("BRK-B").unwrap(), "BRK-B");
}

#[test]
fn given_window_when_in_window_then_upcoming_and_recent() {
    let as_of: i64 = 1_780_000_000_000;
    let query = EarningsCalendarQuery::default();
    let hour = DAY_MS / 24;
    assert!(in_window(Some(as_of + 7 * DAY_MS), None, query.horizon_days, query.include_past_days, as_of));
    assert!(!in_window(
        Some(as_of + 60 * DAY_MS),
        Some(as_of - 90 * DAY_MS),
        query.horizon_days,
        query.include_past_days,
        as_of
    ));
    assert!(in_window(None, Some(as_of - 6 * hour), query.horizon_days, query.include_past_days, as_of));
}

#[test]
fn in_window_edges() {
    let as_of: i64 = 1_780_000_000_000;
    let hour = DAY_MS / 24;
    assert!(in_window(Some(as_of - 12 * hour), None, 14, 1, as_of));
    assert!(!in_window(Some(as_of - 12 * hour - 1), None, 14, 1, as_of));
    assert!(in_window(Some(as_of + 14 * DAY_MS), None, 14, 1, as_of));
    assert!(!in_window(Some(as_of + 14 * DAY_MS + 1), None, 14, 1, as_of));
    assert!(!in_window(None, Some(as_of + 1), 14, 1, as_of));
    assert!(in_window(None, Some(as_of), -5, -5, as_of));
    assert!(!in_window(None, Some(as_of - 1), 14, -5, as_of));
}

#[test]
fn given_mixed_book_when_equity_book_targets_then_skips_non_equity() {
    let holdings = vec![
        holding("IBM", AssetClass::Equity),
        holding("Gold", AssetClass::Commodity),
        holding("US500", AssetClass::Index),
    ];
    let t = equity_book_targets(&holdings);
    assert_eq!(t.len(), 1);
    assert_eq!(t[0].symbol, "IBM");
    assert!(!t[0].force);
}

#[test]
fn explicit_targets_use_book_spelling_when_held() {
    let holdings = vec![holding("TON/USD_LEVERAGE", AssetClass::Crypto)];
    let t = explicit_targets(&holdings, &["TON".to_string(), "MSFT".to_string()]);
    assert_eq!(t.len(), 2);
    assert_eq!(t[0].symbol, "TON/USD_LEVERAGE");
    assert_eq!(t[0].name.as_deref(), Some("TON/USD_LEVERAGE Corp"));
    assert_eq!(t[1].symbol, "MSFT");
    assert!(t[1].name.is_none());
    assert!(t[0].force && t[1].force);
}

#[test]
fn emit_rules_and_error_text() {
    assert!(should_emit(true, false, false, false));
    assert!(!should_emit(false, false, false, true));
    assert!(should_emit(false, true, false, true));
    assert!(!should_emit(false, true, true, false));
    assert_eq!(earnings_error("TSLA", "boom"), "earnings for TSLA: boom");
}

#[test]
fn given_empty_symbols_when_require_symbols_then_errors() {
    let err = require_symbols(&[]).unwrap_err();
    assert!(err.contains("at least one symbol"));
    assert!(require_symbols(&["TSLA".to_string()]).is_ok());
}

#[test]
fn given_empty_symbols_when_wants_block_then_all_blocks_are_on() {
    assert!(wants_block(&[], AnalysisInclude::News));
    assert!(wants_block(&[AnalysisInclude::News], AnalysisInclude::News));
    assert!(!wants_block(&[AnalysisInclude::News], AnalysisInclude::Targets));
}

#[test]
fn given_targets_include_when_class_is_not_equity_then_skipped() {
    assert!(!should_attach_targets(AssetClass::Commodity, true));
    assert!(!should_attach_targets(AssetClass::Index, true));
    assert!(!should_attach_targets(AssetClass::Crypto, true));
    assert!(should_attach_targets(AssetClass::Equity, true));
    assert!(!should_attach_targets(AssetClass::Equity, false));
}

#[test]
fn given_leverage_alias_when_symbols_match_then_ton_matches_holding() {
    assert!(symbols_match("TON", "TON/USD_LEVERAGE"));
    assert!(symbols_match("TON/USD_LEVERAGE", "TON"));
    assert!(!symbols_match("TON", "TSLA"));
}

#[test]
fn symbols_match_ignores_case_and_aliases() {
    assert!(symbols_match("tsla", "TSLA."));
    assert!(symbols_match("US500", "SPX500"));
    assert!(!symbols_match("US500", "US100"));
}

#[test]
fn given_symbols_filter_when_filter_symbols_then_keeps_matching_lots() {
    let book = vec!["TSLA".to_string(), "Gold".to_string()];
    let symbols = ["TSLA".to_string()];
    let out = filter_symbols(&book, Some(&symbols));
    assert_eq!(out, vec![0]);
    assert_eq!(filter_symbols(&book, None), vec![0, 1]);
}

#[test]
fn given_positions_include_when_want_trades_then_only_trades_flag() {
    assert!(!positions_want_trades(&[]));
    assert!(positions_want_trades(&[PositionsInclude::Trades]));
    assert!(!positions_want_trades(&[PositionsInclude::Indicators]));
    assert_eq!(
        analysis_includes_from_positions(&[
            PositionsInclude::Trades,
            PositionsInclude::Indicators,
            PositionsInclude::News,
        ]),
        vec![AnalysisInclude::Indicators, AnalysisInclude::News]
    );
}

#[test]
fn all_blocks_in_presentation_order() {
    assert_eq!(
        AnalysisInclude::all(),
        vec![
            AnalysisInclude::News,
            AnalysisInclude::Targets,
            AnalysisInclude::Earnings,
            AnalysisInclude::Indicators
        ]
    );
    assert_eq!(PositionsInclude::Earnings.as_analysis(), Some(AnalysisInclude::Earnings));
    assert_eq!(PositionsInclude::Trades.as_analysis(), None);
}

#[test]
fn plan_symbol_analysis_uses_book_row_or_fallback() {
    let holdings = vec![holding("TON/USD_LEVERAGE", AssetClass::Crypto), holding("IBM", AssetClass::Equity)];
    let p = plan_symbol_analysis(&holdings, "TON", &[], true);
    assert_eq!(p.holding, Some(0));
    assert_eq!(p.row_symbol, "TON/USD_LEVERAGE");
    assert_eq!(p.class, AssetClass::Crypto);
    assert_eq!(p.key, "TON11419-USD");
    assert!(p.indicators && !p.targets && p.earnings && p.news);

    let p = plan_symbol_analysis(&holdings, "Gold", &[AnalysisInclude::Targets], false);
    assert_eq!(p.holding, None);
    assert_eq!(p.row_symbol, "Gold");
    assert_eq!(p.class, AssetClass::Commodity);
    assert!(!p.indicators && !p.targets && !p.earnings && !p.news);

    let p = plan_symbol_analysis(&holdings, "ibm", &[AnalysisInclude::Targets], true);
    assert_eq!(p.holding, Some(1));
    assert!(p.targets && !p.indicators);
    assert_eq!(missing_history_error("GC=F"), "yahoo history unavailable for mapped symbol GC=F");
}

#[test]
fn calendar_events_follow_force_and_window() {
    let book = vec![holding("AAPL", AssetClass::Equity), holding("MSFT", AssetClass::Equity)];
    let now: i64 = 1_700_000_000_000;
    let book_targets = equity_book_targets(&book);
    let answers = vec![
        EarningsAnswer::Found { next_report_ms: Some(now + 3 * DAY_MS), last_report_ms: None },
        EarningsAnswer::Found { next_report_ms: Some(now + 30 * DAY_MS), last_report_ms: None },
    ];
    let events = calendar_events(&book_targets, &answers, 14, 1, now);
    assert_eq!(events.len(), 1);
    assert_eq!(events[0].target, 0);
    assert!(matches!(events[0].row, CalendarRow::Report));

    let asked = vec!["AAPL".to_string(), "US500".to_string(), "MSFT".to_string()];
    let forced = explicit_targets(&book, &asked);
    let answers = vec![
        EarningsAnswer::Found { next_report_ms: Some(now + 30 * DAY_MS), last_report_ms: None },
        EarningsAnswer::NotAsked,
        EarningsAnswer::Failed { error: "timeout".to_string() },
    ];
    let events = calendar_events(&forced, &answers, 14, 1, now);
    assert_eq!(events.iter().map(|e| e.target).collect::<Vec<_>>(), vec![0, 1, 2]);
    assert!(matches!(events[0].row, CalendarRow::Report));
    match &events[1].row {
        CalendarRow::Error { message } => assert_eq!(message, &finnhub_earnings_symbol("US500").unwrap_err()),
        _ => panic!("expected an error row"),
    }
    match &events[2].row {
        CalendarRow::Error { message } => assert_eq!(message, "earnings for MSFT: timeout"),
        _ => panic!("expected an error row"),
    }
}
