use finance::investment::debug::{finance_debug_enabled, redact_secrets, ws_topics};
use finance::investment::ws::{ws_api_prefix, ws_connect_url};
use finance::json::{get, get_i64, get_str, Json};

fn obj(members: Vec<(&str, Json)>) -> Json {
    Json::Object(members.into_iter().map(|(k, v)| (k.to_string(), v)).collect())
}

fn s(v: &str) -> Json {
    Json::Str(v.to_string())
}

fn n(v: &str) -> Json {
    Json::Number(v.to_string())
}

fn text(v: &Json) -> Option<&str> {
    match v {
        Json::Str(s) => Some(s.as_str()),
        _ => None,
    }
}

#[test]
fn redact_secrets_strips_api_key_and_signature() {
    let v = obj(vec![
        ("apiKey", s("secret-key")),
        ("payload", obj(vec![("signature", s("deadbeef")), ("symbol", s("TSLA"))])),
        ("nested", Json::Array(vec![obj(vec![("api_secret", s("x")), ("ok", n("1"))])])),
    ]);
    let r = redact_secrets(v);
    assert_eq!(text(get(&r, "apiKey").unwrap()), Some("[redacted]"));
    let payload = get(&r, "payload").unwrap();
    assert_eq!(text(get(payload, "signature").unwrap()), Some("[redacted]"));
    assert_eq!(get_str(payload, "symbol"), Some("TSLA"));
    match get(&r, "nested").unwrap() {
        Json::Array(items) => {
            assert_eq!(get_str(&items[0], "api_secret"), Some("[redacted]"));
            assert_eq!(get_i64(&items[0], "ok"), Some(1));
        }
        _ => panic!("nested must stay an array"),
    }
}

#[test]
fn redaction_ignores_case_and_is_idempotent() {
    let v = obj(vec![("TOKEN", obj(vec![("a", n("2"))])), ("Password", Json::Null), ("x", Json::Bool(true))]);
    let once = redact_secrets(v);
    assert_eq!(get_str(&once, "TOKEN"), Some("[redacted]"));
    assert_eq!(get_str(&once, "Password"), Some("[redacted]"));
    assert!(matches!(get(&once, "x"), Some(Json::Bool(true))));
    let twice = redact_secrets(match &once {
        Json::Object(m) => Json::Object(m.iter().map(|(k, v)| (k.clone(), match v {
            Json::Str(t) => Json::Str(t.clone()),
            Json::Bool(b) => Json::Bool(*b),
            _ => Json::Null,
        })).collect()),
        _ => Json::Null,
    });
    assert_eq!(get_str(&twice, "TOKEN"), Some("[redacted]"));
}

#[test]
fn json_member_access() {
    let v = obj(vec![("update_id", n("42")), ("big", n("1.5")), ("name", s("x"))]);
    assert_eq!(get_i64(&v, "update_id"), Some(42));
    assert_eq!(get_i64(&v, "big"), None);
    assert_eq!(get_i64(&v, "name"), None);
    assert_eq!(get_str(&v, "name"), Some("x"));
    assert!(get(&v, "missing").is_none());
    assert!(get(&s("x"), "name").is_none());
}

#[test]
fn debug_gate() {
    assert!(finance_debug_enabled(true, None));
    assert!(finance_debug_enabled(false, Some("TRUE")));
    assert!(finance_debug_enabled(false, Some("1")));
    assert!(!finance_debug_enabled(false, Some("yes")));
    assert!(!finance_debug_enabled(false, None));
}

#[test]
fn ws_topics_lists_ticker_destination() {
    let v = ws_topics("https://api-adapter.dzengi.com/api/v2");
    assert_eq!(get_str(&v, "api_prefix"), Some("/api/v2"));
    assert_eq!(get_str(&v, "connect_url"), Some("wss://api-adapter.dzengi.com/connect"));
    let dests = match get(&v, "destinations") {
        Some(Json::Array(items)) => items.clone(),
        _ => panic!("destinations is not an array"),
    };
    assert!(dests.iter().any(|d| text(d) == Some("/api/v2/ticker/24hr")));
}

#[test]
fn ws_topics_lists_all_destinations_and_channel() {
    let v = ws_topics("https://api-adapter.dzengi.com/api/v1/");
    let dests: Vec<String> = match get(&v, "destinations") {
        Some(Json::Array(items)) => items.iter().filter_map(|d| text(d).map(|t| t.to_string())).collect(),
        _ => panic!("destinations is not an array"),
    };
    assert_eq!(
        dests,
        vec![
            "/api/v1/auth",
            "/api/v1/time",
            "/api/v1/ticker/24hr",
            "/api/v1/depth",
            "/api/v1/exchangeInfo",
            "/api/v1/account",
            "/api/v1/deposits",
            "/api/v1/myTrades",
        ]
    );
    match get(&v, "subscribe_channels") {
        Some(Json::Array(items)) => {
            assert_eq!(items.len(), 1);
            assert_eq!(text(&items[0]), Some("portfolio"));
        }
        _ => panic!("subscribe_channels is not an array"),
    }
    assert_eq!(
        get_str(&v, "notes"),
        Some("Read-only probe. Auth destination requires signed payload; never returned here.")
    );
}

#[test]
fn ws_urls_follow_the_rest_base_url() {
    assert_eq!(ws_api_prefix("https://api-adapter.dzengi.com/api/v1//"), "/api/v1");
    assert_eq!(ws_api_prefix("https://host.example"), "");
    assert_eq!(ws_connect_url("http://localhost:8080/api/v1"), "ws://localhost:8080/connect");
    assert_eq!(ws_connect_url("https://host.example/"), "wss://host.example/connect");
}
