//! Dzengi REST request URLs: the base URL, the query of each endpoint, the
//! HMAC signature appended to private calls, and ledger pagination.
use vstd::prelude::*;
use crate::investment::signing::{hex_lower, hmac_sha256, sign};
use crate::num::{dec, u64_to_string};
use crate::text::{owned, to_chars, string_of_range};
use crate::url::{url_encode, url_encoded};

verus! {

/// Page size of the ledger and transaction walks.
pub const PAGE_LIMIT: u64 = 100;

/// `s` without its trailing `/` characters.
pub open spec fn trim_slashes(s: Seq<char>) -> Seq<char>
    decreases s.len(),
{
    if s.len() > 0 && s.last() == '/' {
        trim_slashes(s.drop_last())
    } else {
        s
    }
}

/// Base URL of the REST client: trailing slashes removed.
pub fn base_url(raw: &str) -> (r: String)
    ensures
        r@ == trim_slashes(raw@),
{
    let v = to_chars(raw);
    let mut k: usize = v.len();
    assert(v@.subrange(0, v@.len() as int) =~= v@);
    while k > 0 && v[k - 1] == '/'
        invariant
            k <= v@.len(),
            trim_slashes(v@) == trim_slashes(v@.subrange(0, k as int)),
        decreases k,
    {
        assert(v@.subrange(0, k as int).drop_last() =~= v@.subrange(0, k - 1));
        k = k - 1;
    }
    proof {
        let s = v@.subrange(0, k as int);
        if k > 0 {
            assert(s.last() == v@[k - 1]);
        }
    }
    assert(v@.subrange(0, v@.len() as int) =~= v@);
    string_of_range(v.as_slice(), 0, k)
}

/// `timestamp={ts}`.
pub open spec fn ts_param(ts: u64) -> Seq<char> {
    "timestamp="@ + dec(ts as nat)
}

fn append_u64(s: &mut String, n: u64)
    ensures
        final(s)@ == old(s)@ + dec(n as nat),
{
    let t = u64_to_string(n);
    s.append(t.as_str());
}

/// Query of the timestamp-only private endpoints.
pub fn timestamp_params(ts: u64) -> (r: String)
    ensures
        r@ == ts_param(ts),
{
    let mut p = owned("timestamp=");
    append_u64(&mut p, ts);
    p
}

/// Query of `/myTrades`: `symbol={enc}&timestamp={ts}`.
pub fn my_trades_params(symbol: &str, ts: u64) -> (r: String)
    ensures
        r@ == "symbol="@ + url_encoded(symbol@) + "&timestamp="@ + dec(ts as nat),
{
    let mut p = owned("symbol=");
    let e = url_encode(symbol);
    p.append(e.as_str());
    p.append("&timestamp=");
    append_u64(&mut p, ts);
    p
}

/// Query of `/fetchOrder`: `orderId={enc}&timestamp={ts}`.
pub fn fetch_order_params(order_id: &str, ts: u64) -> (r: String)
    ensures
        r@ == "orderId="@ + url_encoded(order_id@) + "&timestamp="@ + dec(ts as nat),
{
    let mut p = owned("orderId=");
    let e = url_encode(order_id);
    p.append(e.as_str());
    p.append("&timestamp=");
    append_u64(&mut p, ts);
    p
}

/// Query with an optional leading symbol (`/openOrders`,
/// `/tradingPositionHistory`).
pub fn symbol_first_params(symbol: Option<&str>, ts: u64) -> (r: String)
    ensures
        r@ == match symbol {
            Some(s) => "symbol="@ + url_encoded(s@) + "&timestamp="@ + dec(ts as nat),
            None => ts_param(ts),
        },
{
    match symbol {
        Some(s) => my_trades_params(s, ts),
        None => timestamp_params(ts),
    }
}

/// `&{name}={n}` when `n` is given.
pub open spec fn opt_num(name: Seq<char>, n: Option<u64>) -> Seq<char> {
    match n {
        Some(v) => "&"@ + name + "="@ + dec(v as nat),
        None => Seq::empty(),
    }
}

fn append_opt(p: &mut String, name: &str, n: Option<u64>)
    ensures
        final(p)@ == old(p)@ + opt_num(name@, n),
{
    if let Some(v) = n {
        p.append("&");
        p.append(name);
        p.append("=");
        append_u64(p, v);
    }
}

/// Query of `/ledger`: timestamp, then the optional currency, start, end,
/// limit and receive window, in that order.
pub fn ledger_params(
    currency: Option<&str>,
    start_time: Option<u64>,
    end_time: Option<u64>,
    limit: Option<u64>,
    recv_window: Option<u64>,
    ts: u64,
) -> (r: String)
    ensures
        r@ == ts_param(ts) + match currency {
            Some(c) => "&currency="@ + url_encoded(c@),
            None => Seq::empty(),
        } + opt_num("startTime"@, start_time) + opt_num("endTime"@, end_time) + opt_num(
            "limit"@,
            limit,
        ) + opt_num("recvWindow"@, recv_window),
{
    let mut p = timestamp_params(ts);
    if let Some(c) = currency {
        p.append("&currency=");
        let e = url_encode(c);
        p.append(e.as_str());
    }
    append_opt(&mut p, "startTime", start_time);
    append_opt(&mut p, "endTime", end_time);
    append_opt(&mut p, "limit", limit);
    append_opt(&mut p, "recvWindow", recv_window);
    p
}

/// Query of `/transactions`: timestamp, then the optional start, end, limit
/// and receive window.
pub fn transactions_params(
    start_time: Option<u64>,
    end_time: Option<u64>,
    limit: Option<u64>,
    recv_window: Option<u64>,
    ts: u64,
) -> (r: String)
    ensures
        r@ == ts_param(ts) + opt_num("startTime"@, start_time) + opt_num("endTime"@, end_time)
            + opt_num("limit"@, limit) + opt_num("recvWindow"@, recv_window),
{
    let mut p = timestamp_params(ts);
    append_opt(&mut p, "startTime", start_time);
    append_opt(&mut p, "endTime", end_time);
    append_opt(&mut p, "limit", limit);
    append_opt(&mut p, "recvWindow", recv_window);
    p
}

/// Signed URL of a private endpoint:
/// `{base}{path}?{params}&signature={hmac(params)}`.
pub fn signed_url(base: &str, path: &str, params: &str, api_secret: &str) -> (r: String)
    ensures
        r@ == base@ + path@ + "?"@ + params@ + "&signature="@ + hex_lower(
            hmac_sha256(vstd::utf8::encode_utf8(api_secret@), vstd::utf8::encode_utf8(params@)),
        ),
{
    let sig = sign(api_secret, params);
    let mut u = owned(base);
    u.append(path);
    u.append("?");
    u.append(params);
    u.append("&signature=");
    u.append(sig.as_str());
    u
}

/// URL of a public per-symbol endpoint: `{base}{path}?symbol={enc}`.
pub fn symbol_url(base: &str, path: &str, symbol: &str) -> (r: String)
    ensures
        r@ == base@ + path@ + "?symbol="@ + url_encoded(symbol@),
{
    let mut u = owned(base);
    u.append(path);
    u.append("?symbol=");
    let e = url_encode(symbol);
    u.append(e.as_str());
    u
}

/// URL of `/klines`: `{base}/klines?symbol={enc}&interval={enc}`.
pub fn klines_url(base: &str, symbol: &str, interval: &str) -> (r: String)
    ensures
        r@ == base@ + "/klines?symbol="@ + url_encoded(symbol@) + "&interval="@ + url_encoded(
            interval@,
        ),
{
    let mut u = owned(base);
    u.append("/klines?symbol=");
    let e = url_encode(symbol);
    u.append(e.as_str());
    u.append("&interval=");
    let i = url_encode(interval);
    u.append(i.as_str());
    u
}

/// After a page of `len` rows whose last row is at `last_ts`: stop on an
/// empty or short page, else continue from `last_ts + 1`.
pub fn next_page_start(len: usize, limit: u64, last_ts: u64) -> (r: Option<u64>)
    requires
        last_ts < u64::MAX,
    ensures
        r == (if len == 0 || (len as int) < limit {
            None
        } else {
            Some((last_ts + 1) as u64)
        }),
{
    if len == 0 || (len as u64) < limit {
        None
    } else {
        Some(last_ts + 1)
    }
}

} // verus!
