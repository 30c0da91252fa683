use finance::investment::kline::{kline_from_json, klines_from_json};
use finance::json::Json;

fn num(s: &str) -> Json {
    Json::Number(s.to_string())
}

fn text(s: &str) -> Json {
    Json::Str(s.to_string())
}

#[test]
fn string_prices_and_close_time_decode() {
    let row = Json::Array(vec![
        num("1499040000000"),
        text("0.01634790"),
        text("0.80000000"),
        text("0.01575800"),
        text("0.01577100"),
        text("148976.11427815"),
        num("1499644799999"),
        text("2434.19"),
    ]);
    let k = kline_from_json(&row).unwrap();
    assert_eq!(k.open_time, 1_499_040_000_000);
    assert_eq!(k.open, "0.01634790");
    assert_eq!(k.high, "0.80000000");
    assert_eq!(k.low, "0.01575800");
    assert_eq!(k.close, "0.01577100");
    assert_eq!(k.volume, "148976.11427815");
    assert_eq!(k.close_time, Some(1_499_644_799_999));
}

#[test]
fn numeric_prices_keep_their_text_and_close_time_is_optional() {
    let row = Json::Array(vec![num("1"), num("2.5"), num("3"), num("1"), num("2"), num("10")]);
    let k = kline_from_json(&row).unwrap();
    assert_eq!(k.open, "2.5");
    assert_eq!(k.volume, "10");
    assert_eq!(k.close_time, None);
}

#[test]
fn malformed_rows_name_their_problem() {
    let err = |row: Json| kline_from_json(&row).err().unwrap();
    assert_eq!(err(Json::Array(vec![])), "invalid length 0, expected a kline array");
    assert_eq!(err(text("x")), "expected a kline array");
    assert_eq!(err(Json::Array(vec![text("x"), text("1")])), "open time is not an unsigned integer");
    assert_eq!(err(Json::Array(vec![num("1"), text("a"), text("b")])), "missing element");
    assert_eq!(
        err(Json::Array(vec![num("1"), text("a"), Json::Bool(true), text("c"), text("d"), text("e")])),
        "expected string or number"
    );
    assert_eq!(
        err(Json::Array(vec![num("1"), text("a"), text("b"), text("c"), text("d"), text("e"), num("-5")])),
        "close time is not an unsigned integer"
    );
}

#[test]
fn a_reply_decodes_row_by_row() {
    let good = Json::Array(vec![num("1"), text("1"), text("2"), text("0.5"), text("1.5"), text("9")]);
    let bad = Json::Array(vec![num("2"), text("1")]);
    let ok = klines_from_json(&Json::Array(vec![good])).unwrap();
    assert_eq!(ok.len(), 1);
    assert_eq!(ok[0].close, "1.5");
    let good2 = Json::Array(vec![num("1"), text("1"), text("2"), text("0.5"), text("1.5"), text("9")]);
    assert_eq!(klines_from_json(&Json::Array(vec![good2, bad])).err().unwrap(), "missing element");
    assert_eq!(klines_from_json(&text("oops")).err().unwrap(), "expected a kline array");
    assert!(klines_from_json(&Json::Array(vec![])).unwrap().is_empty());
}
