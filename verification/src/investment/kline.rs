//! Candles of `/klines`: each row of the reply is an array
//! `[open_time, open, high, low, close, volume, close_time?, ...]` whose
//! prices may come as strings or numbers.
use vstd::prelude::*;
use crate::investment::model::Kline;
use crate::investment::ws::{as_u64, as_u64_spec};
use crate::json::Json;
use crate::text::owned;

verus! {

/// A string element as written, a number in its textual form.
pub open spec fn text_of(v: Json) -> Option<Seq<char>> {
    match v {
        Json::Str(s) => Some(s@),
        Json::Number(n) => Some(n@),
        _ => None,
    }
}

/// First problem among the price / volume elements `i..=5`.
pub open spec fn price_error(items: Seq<Json>, i: int) -> Option<Seq<char>>
    decreases 6 - i,
{
    if i > 5 || i < 1 {
        None
    } else if i >= items.len() {
        Some("missing element"@)
    } else if text_of(items[i]) is None {
        Some("expected string or number"@)
    } else {
        price_error(items, i + 1)
    }
}

/// Why a row is not a candle, if it is not one.
pub open spec fn kline_error(row: Json) -> Option<Seq<char>> {
    match row {
        Json::Array(items) => {
            let s = items@;
            if s.len() == 0 {
                Some("invalid length 0, expected a kline array"@)
            } else if as_u64_spec(s[0]) is None {
                Some("open time is not an unsigned integer"@)
            } else if price_error(s, 1) is Some {
                price_error(s, 1)
            } else if s.len() > 6 && as_u64_spec(s[6]) is None {
                Some("close time is not an unsigned integer"@)
            } else {
                None
            }
        },
        _ => Some("expected a kline array"@),
    }
}

/// The candle a well-formed row decodes to.
pub open spec fn kline_matches(row: Json, k: Kline) -> bool {
    match row {
        Json::Array(items) => {
            let s = items@;
            &&& Some(k.open_time) == as_u64_spec(s[0])
            &&& Some(k.open@) == text_of(s[1])
            &&& Some(k.high@) == text_of(s[2])
            &&& Some(k.low@) == text_of(s[3])
            &&& Some(k.close@) == text_of(s[4])
            &&& Some(k.volume@) == text_of(s[5])
            &&& k.close_time == (if s.len() > 6 {
                as_u64_spec(s[6])
            } else {
                None
            })
        },
        _ => false,
    }
}

fn text_at(items: &Vec<Json>, i: usize) -> (r: Result<String, String>)
    requires
        1 <= i <= 5,
    ensures
        match r {
            Ok(t) => i < items@.len() && text_of(items@[i as int]) == Some(t@),
            Err(e) => (i >= items@.len() && e@ == "missing element"@) || (i < items@.len()
                && text_of(items@[i as int]) is None && e@ == "expected string or number"@),
        },
{
    if i >= items.len() {
        return Err(owned("missing element"));
    }
    match &items[i] {
        Json::Str(s) => Ok(s.clone()),
        Json::Number(n) => Ok(n.clone()),
        _ => Err(owned("expected string or number")),
    }
}

/// Decode one row of a `/klines` reply; trailing elements after the close
/// time are ignored.
pub fn kline_from_json(row: &Json) -> (r: Result<Kline, String>)
    ensures
        match r {
            Ok(k) => kline_error(*row) is None && kline_matches(*row, k),
            Err(e) => kline_error(*row) == Some(e@),
        },
{
    let items = match row {
        Json::Array(items) => items,
        _ => {
            return Err(owned("expected a kline array"));
        },
    };
    if items.len() == 0 {
        return Err(owned("invalid length 0, expected a kline array"));
    }
    let open_time = match as_u64(&items[0]) {
        Some(t) => t,
        None => {
            return Err(owned("open time is not an unsigned integer"));
        },
    };
    let open = match text_at(items, 1) {
        Ok(t) => t,
        Err(e) => {
            return Err(e);
        },
    };
    let high = match text_at(items, 2) {
        Ok(t) => t,
        Err(e) => {
            assert(price_error(items@, 1) == price_error(items@, 2));
            return Err(e);
        },
    };
    let low = match text_at(items, 3) {
        Ok(t) => t,
        Err(e) => {
            assert(price_error(items@, 2) == price_error(items@, 3));
            return Err(e);
        },
    };
    let close = match text_at(items, 4) {
        Ok(t) => t,
        Err(e) => {
            assert(price_error(items@, 3) == price_error(items@, 4));
            return Err(e);
        },
    };
    let volume = match text_at(items, 5) {
        Ok(t) => t,
        Err(e) => {
            assert(price_error(items@, 4) == price_error(items@, 5));
            return Err(e);
        },
    };
    assert(price_error(items@, 6) is None);
    assert(price_error(items@, 1) is None);
    let close_time = if items.len() > 6 {
        match as_u64(&items[6]) {
            Some(t) => Some(t),
            None => {
                return Err(owned("close time is not an unsigned integer"));
            },
        }
    } else {
        None
    };
    Ok(Kline { open_time, open, high, low, close, volume, close_time })
}

/// Decode a whole `/klines` reply: an array of rows, in order; the first bad
/// row's problem otherwise.
pub fn klines_from_json(reply: &Json) -> (r: Result<Vec<Kline>, String>)
    ensures
        match r {
            Ok(ks) => {
                &&& reply is Array
                &&& ks@.len() == reply->Array_0@.len()
                &&& forall|i: int|
                    0 <= i < ks@.len() ==> #[trigger] kline_error(reply->Array_0@[i]) is None
                &&& forall|i: int| 0 <= i < ks@.len() ==> kline_matches(reply->Array_0@[i], #[trigger] ks@[i])
            },
            Err(e) => match reply {
                Json::Array(rows) => exists|i: int|
                    0 <= i < rows@.len() && kline_error(#[trigger] rows@[i]) == Some(e@) && forall|
                        j: int,
                    |
                        0 <= j < i ==> kline_error(#[trigger] rows@[j]) is None,
                _ => e@ == "expected a kline array"@,
            },
        },
{
    let rows = match reply {
        Json::Array(rows) => rows,
        _ => {
            return Err(owned("expected a kline array"));
        },
    };
    let mut out: Vec<Kline> = Vec::new();
    let mut i: usize = 0;
    while i < rows.len()
        invariant
            *reply is Array,
            reply->Array_0 == *rows,
            i <= rows@.len(),
            out@.len() == i,
            forall|k: int| 0 <= k < i ==> #[trigger] kline_error(rows@[k]) is None,
            forall|k: int| 0 <= k < i ==> kline_matches(rows@[k], #[trigger] out@[k]),
        decreases rows@.len() - i,
    {
        match kline_from_json(&rows[i]) {
            Ok(k) => {
                let ghost before = out@;
                out.push(k);
                assert(kline_matches(rows@[i as int], out@[i as int]));
                assert forall|j: int| 0 <= j < i + 1 implies kline_matches(rows@[j], #[trigger] out@[j]) by {
                    if j < i {
                        assert(out@[j] == before[j]);
                    }
                }
            },
            Err(e) => {
                assert(kline_error(rows@[i as int]) == Some(e@));
                return Err(e);
            },
        }
        i = i + 1;
    }
    Ok(out)
}

} // verus!
