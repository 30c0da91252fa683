use finance::investment::signing::sign;
use finance::investment::telegram_commands::{get_updates_outcome, parse_inbound, raw_update_id};
use finance::investment::telegram_outbox::{http_error, send_message_outcome, transport_error};
use finance::investment::ws::{
    auth_frame, correlation_id, frame_kind, is_response_to, request_frame, server_time,
    signed_payload, subscribe_frame, symbol_signed_payload, FrameKind,
};
use finance::json::{get, get_str, Json};

fn obj(members: Vec<(&str, Json)>) -> Json {
    Json::Object(members.into_iter().map(|(k, v)| (k.to_string(), v)).collect())
}

fn s(v: &str) -> Json {
    Json::Str(v.to_string())
}

fn n(v: &str) -> Json {
    Json::Number(v.to_string())
}

#[test]
fn auth_frame_is_signed() {
    let f = auth_frame("KEY", "SECRET", 1700);
    assert_eq!(get_str(&f, "destination"), Some("/api/v1/auth"));
    assert_eq!(get_str(&f, "correlationId"), Some("1"));
    let p = get(&f, "payload").unwrap();
    assert_eq!(get_str(p, "apiKey"), Some("KEY"));
    let expected = sign("SECRET", "timestamp=1700&apiKey=KEY");
    assert_eq!(get_str(p, "signature"), Some(expected.as_str()));
    assert!(matches!(get(p, "timestamp"), Some(Json::Number(t)) if t == "1700"));
    let sp = signed_payload("KEY", "SECRET", 1700);
    assert_eq!(get_str(&sp, "signature"), Some(expected.as_str()));
}

#[test]
fn request_matching_and_server_time() {
    let req = request_frame("/api/v1/time", obj(vec![]), "time-5");
    assert_eq!(get_str(&req, "destination"), Some("/api/v1/time"));
    let reply = obj(vec![("correlationId", s("time-5")), ("payload", obj(vec![("serverTime", n("123"))]))]);
    assert!(is_response_to(&reply, "time-5"));
    assert!(!is_response_to(&reply, "time-6"));
    assert_eq!(server_time(&reply), Ok(123));
    assert_eq!(server_time(&obj(vec![("serverTime", n("7"))])), Ok(7));
    assert_eq!(
        server_time(&obj(vec![("serverTime", n("-7"))])),
        Err("serverTime not found in time response".to_string())
    );
    assert_eq!(correlation_id("depth-TSLA", 9), "depth-TSLA-9");
}

#[test]
fn frames_are_classified() {
    let auth = obj(vec![("op", s("auth")), ("success", Json::Bool(true)), ("reason", Json::Null)]);
    assert_eq!(frame_kind(&auth), FrameKind::Auth);
    let bad_auth = obj(vec![("op", s("auth")), ("success", s("yes"))]);
    assert_eq!(frame_kind(&bad_auth), FrameKind::Raw);
    let pos = obj(vec![("type", s("position_update")), ("symbol", s("TSLA")), ("quantity", n("1")), ("avg_price", n("2.5"))]);
    assert_eq!(frame_kind(&pos), FrameKind::PositionUpdate);
    let snap = obj(vec![
        ("type", s("portfolio_snapshot")),
        ("positions", Json::Array(vec![obj(vec![("symbol", s("A")), ("quantity", n("1")), ("avg_price", n("1"))])])),
        ("updated_at", n("10")),
    ]);
    assert_eq!(frame_kind(&snap), FrameKind::Snapshot);
    let bad_snap = obj(vec![("type", s("portfolio_snapshot")), ("positions", Json::Array(vec![])), ("updated_at", n("1.5"))]);
    assert_eq!(frame_kind(&bad_snap), FrameKind::Raw);
    assert_eq!(frame_kind(&Json::Array(vec![])), FrameKind::Raw);
}

#[test]
fn inbound_messages_are_decoded() {
    let update = obj(vec![
        ("update_id", n("42")),
        ("message", obj(vec![("chat", obj(vec![("id", n("-100"))])), ("text", s("/status"))])),
    ]);
    let m = parse_inbound(&update).unwrap();
    assert_eq!((m.update_id, m.chat_id.as_str(), m.text.as_str()), (42, "-100", "/status"));
    let named = obj(vec![
        ("update_id", n("1")),
        ("message", obj(vec![("chat", obj(vec![("id", s("@chan"))])), ("text", s("hi"))])),
    ]);
    assert_eq!(parse_inbound(&named).unwrap().chat_id, "@chan");
    let no_text = obj(vec![("update_id", n("43")), ("message", obj(vec![("chat", obj(vec![("id", n("1"))]))]))]);
    assert!(parse_inbound(&no_text).is_none());
    assert_eq!(raw_update_id(&no_text), Some(43));
}

#[test]
fn get_updates_replies() {
    let ok = obj(vec![("ok", Json::Bool(true)), ("result", Json::Array(vec![n("1"), n("2")]))]);
    assert_eq!(get_updates_outcome(200, true, "", Ok(ok), "T").unwrap().len(), 2);
    let empty = obj(vec![("ok", Json::Bool(true))]);
    assert!(get_updates_outcome(200, true, "", Ok(empty), "T").unwrap().is_empty());
    let rejected = obj(vec![("ok", Json::Bool(false)), ("description", s("bad token T"))]);
    assert_eq!(
        get_updates_outcome(200, true, "", Ok(rejected), "T").unwrap_err(),
        "telegram getUpdates rejected: bad token [redacted]"
    );
    assert_eq!(
        get_updates_outcome(401, false, "no T here", Err("x".into()), "T").unwrap_err(),
        "telegram getUpdates HTTP 401 (body redacted/truncated): no [redacted] here"
    );
    assert_eq!(
        get_updates_outcome(200, true, "", Err("eof".into()), "T").unwrap_err(),
        "telegram getUpdates JSON error: eof"
    );
}

#[test]
fn send_message_replies() {
    assert!(send_message_outcome(200, true, "{}", None, "T").is_ok());
    let rejected = obj(vec![("ok", Json::Bool(false))]);
    assert_eq!(
        send_message_outcome(200, true, "", Some(rejected), "T").unwrap_err(),
        "telegram sendMessage rejected: ok=false"
    );
    let long = "x".repeat(300);
    let e = http_error("sendMessage", 500, &long, "T");
    assert!(e.starts_with("telegram sendMessage HTTP 500 (body redacted/truncated): "));
    assert!(e.ends_with('…'));
    assert_eq!(
        transport_error("sendMessage", "https://api.telegram.org/botT/sendMessage: x", "T"),
        "telegram sendMessage transport error (url redacted): https://api.telegram.org/bot[redacted] x"
    );
}

#[test]
fn subscribe_and_symbol_payloads() {
    let f = subscribe_frame("portfolio");
    assert_eq!(get_str(&f, "op"), Some("subscribe"));
    assert_eq!(get_str(&f, "channel"), Some("portfolio"));
    let p = symbol_signed_payload("BTC/USD", "KEY", "SECRET", 42);
    assert_eq!(get_str(&p, "symbol"), Some("BTC/USD"));
    assert_eq!(get_str(&p, "apiKey"), Some("KEY"));
    let expected = sign("SECRET", "timestamp=42&apiKey=KEY");
    assert_eq!(get_str(&p, "signature"), Some(expected.as_str()));
    match get(&p, "timestamp") {
        Some(Json::Number(t)) => assert_eq!(t, "42"),
        other => panic!("timestamp member: {other:?}"),
    }
}
