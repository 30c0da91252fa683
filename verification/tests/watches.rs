use finance::investment::watches::{
    alert_list_limit, cooldown_elapsed, decode_watch_columns, find_observation, may_fire,
    new_event_id, symbols_needing_quotes, upsert_fields, validate_upsert, watch_needs_book,
    WatchChannel, WatchCompare, WatchRule, DEFAULT_COOLDOWN_SECS,
};

#[test]
fn validate_rejects_symbol_on_portfolio_rule() {
    let err = validate_upsert(WatchRule::CashBelow, Some("TSLA"), true, None).unwrap_err();
    assert!(err.contains("portfolio-level"));
}

#[test]
fn validate_requires_symbol_for_day_change() {
    let err = validate_upsert(WatchRule::DayChangePct, None, true, None).unwrap_err();
    assert!(err.contains("requires a non-empty symbol"));
}

#[test]
fn validate_upsert_messages_in_order() {
    assert_eq!(
        validate_upsert(WatchRule::DayChangePct, None, false, Some(-1)).unwrap_err(),
        "threshold must be finite"
    );
    assert_eq!(
        validate_upsert(WatchRule::DayChangePct, Some("   "), true, None).unwrap_err(),
        "rule day_change_pct requires a non-empty symbol"
    );
    assert_eq!(
        validate_upsert(WatchRule::NavDayChangePct, Some(" X "), true, None).unwrap_err(),
        "rule nav_day_change_pct is portfolio-level; symbol must be null"
    );
    assert_eq!(
        validate_upsert(WatchRule::CashBelow, Some(" "), true, Some(-5)).unwrap_err(),
        "cooldown_secs must be >= 0"
    );
    assert!(validate_upsert(WatchRule::MarkVsEntryPct, Some("TSLA"), true, Some(0)).is_ok());
}

#[test]
fn upsert_fields_normalize() {
    let f = upsert_fields(
        Some("  TSLA "),
        WatchRule::DayChangePct,
        WatchCompare::AbsGte,
        WatchChannel::Both,
        true,
        None,
        None,
    )
    .unwrap();
    assert_eq!(f.symbol.as_deref(), Some("TSLA"));
    assert_eq!(f.rule, "day_change_pct");
    assert_eq!(f.compare, "abs_gte");
    assert_eq!(f.channel, "both");
    assert_eq!(f.cooldown_secs, DEFAULT_COOLDOWN_SECS);
    assert_eq!(f.enabled, 1);
    let f = upsert_fields(None, WatchRule::CashBelow, WatchCompare::Lte, WatchChannel::Mcp, true, Some(60), Some(false))
        .unwrap();
    assert!(f.symbol.is_none());
    assert_eq!((f.cooldown_secs, f.enabled), (60, 0));
}

#[test]
fn names_round_trip() {
    for r in [
        WatchRule::DayChangePct,
        WatchRule::MarkVsEntryPct,
        WatchRule::NavDayChangePct,
        WatchRule::CashBelow,
        WatchRule::WeightBookPctAbove,
    ] {
        assert_eq!(WatchRule::parse(r.as_str()), Some(r));
    }
    for c in [WatchCompare::Lte, WatchCompare::Gte, WatchCompare::AbsGte] {
        assert_eq!(WatchCompare::parse(c.as_str()), Some(c));
    }
    for h in [WatchChannel::Telegram, WatchChannel::Mcp, WatchChannel::Both] {
        assert_eq!(WatchChannel::parse(h.as_str()), Some(h));
    }
    assert_eq!(WatchRule::parse("Cash_Below"), None);
    assert!(!WatchRule::CashBelow.requires_symbol());
    assert!(WatchRule::WeightBookPctAbove.requires_symbol());
}

#[test]
fn decode_watch_columns_reports_first_unknown() {
    assert_eq!(
        decode_watch_columns("cash_below", "lte", "mcp").unwrap(),
        (WatchRule::CashBelow, WatchCompare::Lte, WatchChannel::Mcp)
    );
    assert_eq!(decode_watch_columns("x", "y", "z").unwrap_err(), "unknown watch rule: x");
    assert_eq!(decode_watch_columns("cash_below", "y", "z").unwrap_err(), "unknown compare: y");
    assert_eq!(decode_watch_columns("cash_below", "gte", "z").unwrap_err(), "unknown channel: z");
}

#[test]
fn cooldown_blocks_until_elapsed() {
    let now: i64 = 1_780_000_000_000;
    assert!(!cooldown_elapsed(Some(now), 3600, now));
    assert!(cooldown_elapsed(Some(now), 3600, now + 3601 * 1000));
    assert!(cooldown_elapsed(Some(now), 3600, now + 3600 * 1000));
    assert!(!cooldown_elapsed(Some(now), 3600, now + 3600 * 1000 - 1));
    assert!(cooldown_elapsed(None, 3600, now));
}

#[test]
fn disabled_watch_never_fires() {
    let now: i64 = 1_780_000_000_000;
    assert!(!may_fire(false, None, 0, now));
    assert!(may_fire(true, None, 0, now));
    assert!(!may_fire(true, Some(now), 60, now + 59_000));
}

#[test]
fn event_id_and_limits() {
    assert_eq!(new_event_id(7, 1_700_000_000_123), "evt_7_1700000000123");
    assert_eq!(new_event_id(-1, -2), "evt_-1_-2");
    assert_eq!(alert_list_limit(None), 50);
    assert_eq!(alert_list_limit(Some(0)), 1);
    assert_eq!(alert_list_limit(Some(500)), 200);
    assert_eq!(alert_list_limit(Some(10)), 10);
    assert!(watch_needs_book(WatchRule::CashBelow));
    assert!(!watch_needs_book(WatchRule::DayChangePct));
}

#[test]
fn observation_lookup_prefers_exact_key() {
    let keys = vec!["tsla".to_string(), "TSLA".to_string(), "Gold".to_string()];
    assert_eq!(find_observation(&keys, "TSLA"), Some(1));
    assert_eq!(find_observation(&keys, "GOLD"), Some(2));
    assert_eq!(find_observation(&keys, "Tsla"), Some(0));
    assert_eq!(find_observation(&keys, "IBM"), None);
}

#[test]
fn day_change_symbols_collected() {
    let watches = vec![(WatchRule::DayChangePct, Some("TSLA".to_string()))];
    let syms = symbols_needing_quotes(&watches);
    assert_eq!(syms, vec!["TSLA".to_string()]);
}

#[test]
fn quote_symbols_sorted_deduplicated_and_capped() {
    let mut watches = vec![
        (WatchRule::DayChangePct, Some("TSLA".to_string())),
        (WatchRule::CashBelow, None),
        (WatchRule::MarkVsEntryPct, Some("AAPL".to_string())),
        (WatchRule::DayChangePct, Some("Gold".to_string())),
        (WatchRule::DayChangePct, Some("TSLA".to_string())),
        (WatchRule::DayChangePct, None),
    ];
    assert_eq!(symbols_needing_quotes(&watches), vec!["Gold".to_string(), "TSLA".to_string()]);
    for i in 0..40 {
        watches.push((WatchRule::DayChangePct, Some(format!("S{i:02}"))));
    }
    let syms = symbols_needing_quotes(&watches);
    assert_eq!(syms.len(), 30);
    assert_eq!(syms[0], "Gold");
    assert_eq!(syms[1], "S00");
    assert_eq!(syms[29], "S28");
    let mut sorted = syms.clone();
    sorted.sort();
    assert_eq!(sorted, syms);
}
