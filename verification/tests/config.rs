use finance::investment::alert_evaluator::{
    alert_evaluator_enabled, force_book, next_session_backoff, plan_cycle, reload_failure_is_fatal,
    AlertEvaluatorConfig,
};
use finance::investment::config::{
    env_flag_or, parse_enabled_flag, AlertsConfig, DzengiConfig, TelegramConfig, TelegramEnv,
};
use finance::investment::watches::WatchRule;

#[test]
fn telegram_debug_redacts_secrets() {
    let cfg = TelegramConfig {
        delivery_enabled: true,
        commands_enabled: true,
        bot_token: "SECRET_TOKEN".into(),
        chat_id: "99999".into(),
        poll_secs: 30,
        batch_limit: 20,
    };
    let dbg = cfg.debug_string();
    assert!(dbg.contains("[redacted]"));
    assert!(!dbg.contains("SECRET_TOKEN"));
    assert!(!dbg.contains("99999"));
}

#[test]
fn dzengi_debug_redacts_keys() {
    let cfg = DzengiConfig {
        base_url: "https://example.test".into(),
        api_key: "KEY".into(),
        api_secret: "SECRET".into(),
    };
    let dbg = cfg.debug_string();
    assert!(!dbg.contains("KEY"));
    assert!(!dbg.contains("SECRET"));
    assert!(dbg.contains("[redacted]"));
}

#[test]
fn dzengi_debug_quotes_the_base_url_as_debug_does() {
    let cfg = DzengiConfig {
        base_url: "https://ex\"am\\ple\n".into(),
        api_key: "KEY".into(),
        api_secret: "SECRET".into(),
    };
    assert_eq!(
        cfg.debug_string(),
        format!("DzengiConfig {{ base_url: {:?}, api_key: \"[redacted]\", api_secret: \"[redacted]\" }}", cfg.base_url)
    );
    assert_eq!(
        cfg.debug_string(),
        "DzengiConfig { base_url: \"https://ex\\\"am\\\\ple\\n\", api_key: \"[redacted]\", api_secret: \"[redacted]\" }"
    );
}

#[test]
fn parse_flag_helpers() {
    assert!(!parse_enabled_flag(None));
    assert!(parse_enabled_flag(Some("1")));
    assert!(parse_enabled_flag(Some("YES")));
    assert!(!parse_enabled_flag(Some("0")));
}

#[test]
fn resolve_single_bot_token() {
    let cfg = TelegramConfig {
        bot_token: "shared".into(),
        chat_id: "1".into(),
        delivery_enabled: true,
        commands_enabled: true,
        ..Default::default()
    };
    let r = cfg.resolve(&TelegramEnv::default());
    assert_eq!(r.bot_token(), "shared");
    assert_eq!(r.primary_chat_id(), "1");
    assert!(r.credentials_ok());
    assert!(r.delivery_enabled);
    assert!(r.commands_enabled);
}

#[test]
fn resolve_applies_overrides_and_caps() {
    let cfg = TelegramConfig {
        bot_token: " file ".into(),
        chat_id: "".into(),
        poll_secs: 9999,
        batch_limit: -3,
        ..Default::default()
    };
    let env = TelegramEnv {
        delivery: Some(" yes ".into()),
        commands: Some("no".into()),
        bot_token: Some("   ".into()),
        chat_id: Some(" 42 ".into()),
        chat_allowlist: Some("7, 42,,8 ,7".into()),
        poll_secs: Some("abc".into()),
        batch_limit: Some("250".into()),
    };
    let r = cfg.resolve(&env);
    assert!(r.delivery_enabled);
    assert!(!r.commands_enabled);
    assert_eq!(r.bot_token(), "file");
    assert_eq!(r.primary_chat_id(), "42");
    assert_eq!(r.allowlist, vec!["42".to_string(), "7".to_string(), "8".to_string()]);
    assert!(r.chat_allowed("8"));
    assert!(!r.chat_allowed("9"));
    assert_eq!(r.poll_interval_secs, 600);
    assert_eq!(r.batch_limit, 100);
    assert_eq!(r.http_timeout_secs, 15);
    let dbg = r.debug_string();
    assert!(!dbg.contains("file") && dbg.contains("allowlist_len: 3"));
}

#[test]
fn resolve_without_credentials() {
    let r = TelegramConfig::default().resolve(&TelegramEnv::default());
    assert!(!r.credentials_ok());
    assert_eq!(r.poll_interval_secs, 30);
    assert_eq!(r.batch_limit, 20);
    assert!(r.allowlist.is_empty());
}

#[test]
fn env_flag_override_wins() {
    assert!(env_flag_or(Some(" TRUE "), false));
    assert!(!env_flag_or(Some("off"), true));
    assert!(env_flag_or(None, true));
}

#[test]
fn evaluator_disabled_by_default() {
    assert!(!parse_enabled_flag(None));
    assert!(!parse_enabled_flag(Some("0")));
    assert!(!parse_enabled_flag(Some("false")));
    assert!(parse_enabled_flag(Some("1")));
    assert!(parse_enabled_flag(Some("true")));
    assert!(parse_enabled_flag(Some("YES")));
    assert!(!alert_evaluator_enabled(None));
}

#[test]
fn config_defaults_in_design_range() {
    let cfg = AlertEvaluatorConfig::default();
    assert_eq!(cfg.eval_interval_secs, 60);
    assert!(
        (300..=900).contains(&cfg.rest_reconcile_secs),
        "REST reconcile should be 5–15m by default"
    );
}

#[test]
fn alert_intervals_from_overrides() {
    let alerts = AlertsConfig { evaluator_enabled: false, eval_interval_secs: 0, rest_reconcile_secs: 7200 };
    assert_eq!(alerts.resolve_intervals(None, None), (60, 3600));
    assert_eq!(alerts.resolve_intervals(Some(" 15 "), Some("120")), (15, 120));
    assert_eq!(alerts.resolve_intervals(Some("0"), Some("99999")), (60, 3600));
    let cfg = AlertEvaluatorConfig::from_alerts_config(&alerts, Some("5"), None);
    assert_eq!((cfg.eval_interval_secs, cfg.rest_reconcile_secs), (5, 3600));
    let cfg = AlertEvaluatorConfig::from_env(None, None);
    assert_eq!((cfg.eval_interval_secs, cfg.rest_reconcile_secs), (60, 600));
    assert!(alerts.resolve_enabled(Some("yes")));
    assert!(!AlertsConfig::default().resolve_enabled(None));
}

#[test]
fn evaluator_cycle_decisions() {
    assert!(force_book(true, true, 0, 600));
    assert!(force_book(false, false, 0, 600));
    assert!(force_book(false, true, 600, 600));
    assert!(!force_book(false, true, 599, 600));
    let plan = plan_cycle(&[], true, false);
    assert!(plan.idle && !plan.reload_book);
    let plan = plan_cycle(&[WatchRule::DayChangePct], false, false);
    assert!(!plan.idle && !plan.needs_book && !plan.reload_book);
    let plan = plan_cycle(&[WatchRule::DayChangePct, WatchRule::CashBelow], false, false);
    assert!(plan.needs_book && plan.reload_book);
    let plan = plan_cycle(&[WatchRule::CashBelow], false, true);
    assert!(!plan.reload_book);
    assert!(reload_failure_is_fatal(true, false));
    assert!(!reload_failure_is_fatal(true, true));
    assert_eq!(next_session_backoff(2), 4);
    assert_eq!(next_session_backoff(40), 60);
}
