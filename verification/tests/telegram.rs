use std::collections::HashSet;

use finance::investment::config::{TelegramConfig, TelegramEnv};
use finance::investment::secret::{ChatAllowlist, Secret};
use finance::investment::telegram_commands::{
    format_help_reply, get_updates_url, handle_update, parse_command, telegram_commands_enabled,
    trim_seen, InboundMessage, TelegramCommand, TelegramCommandsConfig, UpdateAction,
};
use finance::investment::telegram_outbox::{
    compare_glyph, next_failure_backoff, rule_short_label, sanitize_telegram_error,
    send_message_url, telegram_delivery_enabled, truncate_for_log, DeliveryEnv,
    TelegramDeliveryConfig,
};
use finance::investment::config::parse_enabled_flag;
use finance::investment::watches::{WatchCompare, WatchRule};

fn commands_config() -> TelegramCommandsConfig {
    TelegramCommandsConfig {
        bot_token: Secret::new("SECRET".into()),
        allowlist: ChatAllowlist::new(vec!["123".into()]),
        http_timeout_secs: 30,
        long_poll_timeout_secs: 25,
    }
}

#[test]
fn parse_commands_with_bot_suffix() {
    assert_eq!(parse_command("/status"), Some(TelegramCommand::Status));
    assert_eq!(parse_command(" /cash@MyBot "), Some(TelegramCommand::Cash));
    assert_eq!(parse_command("/watches@x"), Some(TelegramCommand::Watches));
    assert_eq!(parse_command("/help"), Some(TelegramCommand::Help));
    assert_eq!(parse_command("/buy"), None);
    assert_eq!(parse_command("hello"), None);
}

#[test]
fn parse_command_reads_first_word_only() {
    assert_eq!(parse_command("  /status please"), Some(TelegramCommand::Status));
    assert_eq!(parse_command("/status\tnow"), Some(TelegramCommand::Status));
    assert_eq!(parse_command("   "), None);
    assert_eq!(parse_command("/STATUS"), None);
}

#[test]
fn help_lists_only_safe_commands() {
    let h = format_help_reply();
    assert!(h.contains("/status"));
    assert!(h.contains("/cash"));
    assert!(h.contains("/watches"));
    assert!(!h.contains("/buy"));
    assert!(!h.contains("order"));
}

#[test]
fn commands_config_debug_redacts() {
    let cfg = commands_config();
    let dbg = cfg.debug_string();
    assert!(dbg.contains("[redacted]"));
    assert!(!dbg.contains("SECRET"));
    assert!(!dbg.contains("123"));
}

#[test]
fn commands_config_from_resolved() {
    let cfg = TelegramConfig {
        bot_token: "tok".into(),
        chat_id: "5".into(),
        poll_secs: 40,
        ..Default::default()
    };
    let r = cfg.resolve(&TelegramEnv::default());
    let c = TelegramCommandsConfig::from_resolved(&r).unwrap();
    assert_eq!(c.long_poll_timeout_secs, 25);
    assert_eq!(c.http_timeout_secs, 15 + 25 + 5);
    assert!(c.chat_allowed("5"));
    assert!(!c.chat_allowed("6"));
    assert_eq!(c.bot_token.expose(), "tok");
    let empty = TelegramConfig::default().resolve(&TelegramEnv::default());
    assert!(TelegramCommandsConfig::from_resolved(&empty).is_none());
    assert!(!telegram_commands_enabled(None));
    assert!(telegram_commands_enabled(Some("1")));
}

#[test]
fn send_message_url_helper_still_tokenized() {
    let url = send_message_url("TOK");
    assert!(url.contains("TOK"));
    let cleaned = sanitize_telegram_error(&url, "TOK");
    assert!(!cleaned.contains("TOK"));
    assert_eq!(get_updates_url("TOK"), "https://api.telegram.org/botTOK/getUpdates");
}

#[test]
fn delivery_flag_parse() {
    assert!(!parse_enabled_flag(None));
    assert!(!parse_enabled_flag(Some("0")));
    assert!(!parse_enabled_flag(Some("false")));
    assert!(parse_enabled_flag(Some("1")));
    assert!(parse_enabled_flag(Some("true")));
    assert!(parse_enabled_flag(Some("YES")));
    assert!(!telegram_delivery_enabled(None));
}

#[test]
fn config_debug_redacts_secrets() {
    let cfg = TelegramDeliveryConfig {
        bot_token: Secret::new("SECRET_TOKEN_VALUE".into()),
        chat_id: Secret::new("12345".into()),
        poll_interval_secs: 30,
        batch_limit: 20,
        http_timeout_secs: 15,
    };
    let dbg = cfg.debug_string();
    assert!(dbg.contains("[redacted]"));
    assert!(!dbg.contains("SECRET_TOKEN_VALUE"));
    assert!(!dbg.contains("12345"));
}

#[test]
fn sanitize_strips_token_and_bot_url() {
    let token = "123456:ABC-DEF";
    let raw = format!(
        "error sending request for url (https://api.telegram.org/bot{token}/sendMessage): boom"
    );
    let cleaned = sanitize_telegram_error(&raw, token);
    assert!(!cleaned.contains(token));
    assert!(cleaned.contains("[redacted]"));
}

#[test]
fn sanitize_scrubs_url_path_even_with_other_token() {
    let raw = "GET https://api.telegram.org/botOTHER/getUpdates?x=1 failed";
    assert_eq!(
        sanitize_telegram_error(raw, "TOKEN"),
        "GET https://api.telegram.org/bot[redacted]?x=1 failed"
    );
    assert_eq!(
        sanitize_telegram_error("see api.telegram.org/botXYZ", "nope"),
        "see api.telegram.org/bot[redacted]"
    );
    assert_eq!(sanitize_telegram_error("plain", "tok"), "plain");
}

#[test]
fn truncate_for_log_counts_characters() {
    assert_eq!(truncate_for_log("short", 10), "short");
    assert_eq!(truncate_for_log("ääääää", 3), "äää…");
    assert_eq!(truncate_for_log("abc", 3), "abc");
}

#[test]
fn delivery_config_from_env_and_resolved() {
    let env = DeliveryEnv {
        bot_token: Some(" tok ".into()),
        chat_id: Some("9".into()),
        poll_secs: Some("900".into()),
        batch_limit: Some(" 5".into()),
    };
    let c = TelegramDeliveryConfig::from_env(&env).unwrap();
    assert_eq!(c.bot_token.expose(), "tok");
    assert_eq!(c.chat_id.expose(), "9");
    assert_eq!(c.poll_interval_secs, 600);
    assert_eq!(c.batch_limit, 20);
    let missing = DeliveryEnv { bot_token: None, chat_id: Some("9".into()), poll_secs: None, batch_limit: None };
    assert!(TelegramDeliveryConfig::from_env(&missing).is_none());

    let r = TelegramConfig { bot_token: "t".into(), chat_id: "c".into(), ..Default::default() }
        .resolve(&TelegramEnv::default());
    let d = TelegramDeliveryConfig::from_resolved(&r).unwrap();
    assert_eq!(d.chat_id.expose(), "c");
    assert_eq!(d.poll_interval_secs, 30);
}

#[test]
fn labels_and_backoff() {
    assert_eq!(compare_glyph(WatchCompare::AbsGte), "|·|≥");
    assert_eq!(rule_short_label(WatchRule::MarkVsEntryPct), "vs entry");
    assert_eq!(next_failure_backoff(5, 300), 10);
    assert_eq!(next_failure_backoff(200, 300), 300);
}

#[test]
fn handle_update_decisions() {
    let cfg = commands_config();
    let mut seen = HashSet::new();
    let msg = |id: i64, chat: &str, text: &str| {
        Some(InboundMessage { update_id: id, chat_id: chat.into(), text: text.into() })
    };
    match handle_update(&cfg, Some(1), msg(1, "123", "/cash"), &mut seen) {
        UpdateAction::Run { command, next, chat_id } => {
            assert_eq!(command, TelegramCommand::Cash);
            assert_eq!(next, 2);
            assert_eq!(chat_id, "123");
        }
        _ => panic!("expected a command"),
    }
    match handle_update(&cfg, Some(1), msg(1, "123", "/cash"), &mut seen) {
        UpdateAction::Skip { offset } => assert_eq!(offset, Some(2)),
        _ => panic!("repeated update must be skipped"),
    }
    match handle_update(&cfg, Some(2), msg(2, "999", "/cash"), &mut seen) {
        UpdateAction::Skip { offset } => assert_eq!(offset, Some(3)),
        _ => panic!("foreign chat must be skipped"),
    }
    match handle_update(&cfg, Some(3), msg(3, "123", " /buy now"), &mut seen) {
        UpdateAction::ReplyUnknown { next, chat_id } => {
            assert_eq!(next, 4);
            assert_eq!(chat_id, "123");
        }
        _ => panic!("unknown command gets a hint"),
    }
    match handle_update(&cfg, Some(4), msg(4, "123", "hello"), &mut seen) {
        UpdateAction::Skip { offset } => assert_eq!(offset, Some(5)),
        _ => panic!("plain text is ignored"),
    }
    match handle_update(&cfg, Some(10), None, &mut seen) {
        UpdateAction::Skip { offset } => assert_eq!(offset, Some(11)),
        _ => panic!("non-message update only moves the offset"),
    }
    assert_eq!(seen.len(), 4);
    trim_seen(&mut seen);
    assert_eq!(seen.len(), 4);
    let mut big: HashSet<i64> = (0..2001).collect();
    trim_seen(&mut big);
    assert!(big.is_empty());
}
