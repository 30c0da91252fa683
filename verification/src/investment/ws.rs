//! Dzengi WebSocket frames: the signed auth and request frames, how an
//! incoming frame is classified, and how a reply is matched and read.
use vstd::prelude::*;
use crate::investment::signing::{auth_query, auth_signature, hex_lower, hmac_sha256};
use crate::json::{as_i64_spec, as_str_spec, get, get_spec, get_str, str_member, Json};
use crate::num::{dec, parse_u64, parse_u64_spec, u64_to_string};
use crate::investment::rest::trim_slashes;
use crate::text::{
    before_char, has_prefix, lemma_before_char_at, owned, starts_with, str_eq, string_of_range,
    to_chars,
};

verus! {

/// The REST base URL after its `https://` or `http://` scheme.
pub open spec fn url_after_scheme(base: Seq<char>) -> Seq<char> {
    if has_prefix(base, "https://"@) {
        base.subrange(8, base.len() as int)
    } else if has_prefix(base, "http://"@) {
        base.subrange(7, base.len() as int)
    } else {
        base
    }
}

/// Host (and port) of the REST base URL: up to the first `/` after the scheme.
pub open spec fn url_host(base: Seq<char>) -> Seq<char> {
    before_char(url_after_scheme(base), '/')
}

/// Path of the REST base URL: from the first `/` after the scheme on.
pub open spec fn url_path(base: Seq<char>) -> Seq<char> {
    let rest = url_after_scheme(base);
    rest.subrange(url_host(base).len() as int, rest.len() as int)
}

/// Destination prefix of WebSocket requests: the REST base URL's path
/// without trailing slashes (`/api/v2` for `https://host/api/v2`).
pub open spec fn ws_api_prefix_spec(base: Seq<char>) -> Seq<char> {
    trim_slashes(url_path(base))
}

/// WebSocket endpoint of the REST host: `wss://{host}/connect`, or
/// `ws://{host}/connect` for a plain `http://` base URL.
pub open spec fn ws_connect_url_spec(base: Seq<char>) -> Seq<char> {
    (if has_prefix(base, "http://"@) {
        "ws://"@
    } else {
        "wss://"@
    }) + url_host(base) + "/connect"@
}

/// Where the scheme ends and where the host ends in `v`.
fn url_bounds(v: &[char]) -> (r: (usize, usize))
    ensures
        r.0 <= r.1 <= v@.len(),
        url_after_scheme(v@) == v@.subrange(r.0 as int, v@.len() as int),
        url_host(v@) == v@.subrange(r.0 as int, r.1 as int),
        url_path(v@) == v@.subrange(r.1 as int, v@.len() as int),
{
    let https = to_chars("https://");
    let http = to_chars("http://");
    proof {
        reveal_strlit("https://");
        reveal_strlit("http://");
    }
    let s: usize = if starts_with(v, https.as_slice()) {
        8
    } else if starts_with(v, http.as_slice()) {
        7
    } else {
        0
    };
    let ghost rest = v@.subrange(s as int, v@.len() as int);
    assert(url_after_scheme(v@) == rest) by {
        if s == 0 {
            assert(v@.subrange(0, v@.len() as int) =~= v@);
        }
    }
    let mut i: usize = s;
    while i < v.len() && v[i] != '/'
        invariant
            s <= i <= v@.len(),
            rest == v@.subrange(s as int, v@.len() as int),
            forall|j: int| s <= j < i ==> v@[j] != '/',
        decreases v@.len() - i,
    {
        i = i + 1;
    }
    proof {
        assert forall|j: int| 0 <= j < i - s implies #[trigger] rest[j] != '/' by {
            assert(rest[j] == v@[j + s]);
        }
        if i < v@.len() {
            assert(rest[i - s] == v@[i as int]);
        }
        lemma_before_char_at(rest, '/', i - s);
        assert(rest.subrange(0, i - s) =~= v@.subrange(s as int, i as int));
        assert(rest.subrange(i - s, rest.len() as int) =~= v@.subrange(i as int, v@.len() as int));
    }
    (s, i)
}

/// End of `v[from..]` once its trailing slashes are dropped.
fn trailing_slashes_start(v: &[char], from: usize) -> (k: usize)
    requires
        from <= v@.len(),
    ensures
        from <= k <= v@.len(),
        trim_slashes(v@.subrange(from as int, v@.len() as int)) == v@.subrange(from as int, k as int),
{
    let mut k: usize = v.len();
    while k > from && v[k - 1] == '/'
        invariant
            from <= k <= v@.len(),
            trim_slashes(v@.subrange(from as int, v@.len() as int)) == trim_slashes(
                v@.subrange(from as int, k as int),
            ),
        decreases k,
    {
        assert(v@.subrange(from as int, k as int).drop_last() =~= v@.subrange(
            from as int,
            k - 1,
        ));
        k = k - 1;
    }
    proof {
        let t = v@.subrange(from as int, k as int);
        if k > from {
            assert(t.last() == v@[k - 1]);
        }
    }
    k
}

/// Destination prefix of WebSocket requests for a REST base URL.
pub fn ws_api_prefix(rest_base_url: &str) -> (r: String)
    ensures
        r@ == ws_api_prefix_spec(rest_base_url@),
{
    let v = to_chars(rest_base_url);
    let (_, h) = url_bounds(v.as_slice());
    let k = trailing_slashes_start(v.as_slice(), h);
    string_of_range(v.as_slice(), h, k)
}

/// WebSocket endpoint for a REST base URL.
pub fn ws_connect_url(rest_base_url: &str) -> (r: String)
    ensures
        r@ == ws_connect_url_spec(rest_base_url@),
{
    let v = to_chars(rest_base_url);
    let (s, h) = url_bounds(v.as_slice());
    let http = to_chars("http://");
    let mut r = if starts_with(v.as_slice(), http.as_slice()) {
        owned("ws://")
    } else {
        owned("wss://")
    };
    let host = string_of_range(v.as_slice(), s, h);
    r.append(host.as_str());
    r.append("/connect");
    r
}

/// Correlation id of the auth request.
pub const AUTH_CORRELATION_ID: &'static str = "1";

/// Destination of the auth request.
pub const AUTH_DESTINATION: &'static str = "/api/v1/auth";

pub open spec fn str_is(v: Json, s: Seq<char>) -> bool {
    match v {
        Json::Str(x) => x@ == s,
        _ => false,
    }
}

pub open spec fn num_is(v: Json, s: Seq<char>) -> bool {
    match v {
        Json::Number(x) => x@ == s,
        _ => false,
    }
}

pub open spec fn members(v: Json) -> Seq<(String, Json)> {
    match v {
        Json::Object(m) => m@,
        _ => Seq::empty(),
    }
}

fn member(k: &str, v: Json) -> (r: (String, Json))
    ensures
        r.0@ == k@,
        r.1 == v,
{
    (owned(k), v)
}

/// `{"destination": …, "payload": …, "correlationId": …}`.
pub fn request_frame(destination: &str, payload: Json, correlation_id: &str) -> (r: Json)
    ensures
        r is Object,
        members(r).len() == 3,
        members(r)[0].0@ == "destination"@ && str_is(members(r)[0].1, destination@),
        members(r)[1].0@ == "payload"@ && members(r)[1].1 == payload,
        members(r)[2].0@ == "correlationId"@ && str_is(members(r)[2].1, correlation_id@),
{
    let d = Json::Str(owned(destination));
    let c = Json::Str(owned(correlation_id));
    let mut m: Vec<(String, Json)> = Vec::new();
    m.push(member("destination", d));
    m.push(member("payload", payload));
    m.push(member("correlationId", c));
    Json::Object(m)
}

pub open spec fn signed_members_ok(
    m: Seq<(String, Json)>,
    api_key: Seq<char>,
    api_secret: Seq<char>,
    timestamp: u64,
) -> bool {
    &&& m.len() == 3
    &&& m[0].0@ == "apiKey"@ && str_is(m[0].1, api_key)
    &&& m[1].0@ == "timestamp"@ && num_is(m[1].1, dec(timestamp as nat))
    &&& m[2].0@ == "signature"@ && str_is(
        m[2].1,
        hex_lower(
            hmac_sha256(
                vstd::utf8::encode_utf8(api_secret),
                vstd::utf8::encode_utf8("timestamp="@ + dec(timestamp as nat) + "&apiKey="@ + api_key),
            ),
        ),
    )
}

/// Signed payload `{"apiKey", "timestamp", "signature"}`, the signature
/// being the HMAC of `timestamp={ts}&apiKey={key}` under the secret.
pub open spec fn signed_payload_ok(v: Json, api_key: Seq<char>, api_secret: Seq<char>, timestamp: u64) -> bool {
    v is Object && signed_members_ok(members(v), api_key, api_secret, timestamp)
}

/// Signed account payload for `api_key` at `timestamp`.
pub fn signed_payload(api_key: &str, api_secret: &str, timestamp: u64) -> (r: Json)
    ensures
        signed_payload_ok(r, api_key@, api_secret@, timestamp),
{
    let sig = auth_signature(api_secret, timestamp, api_key);
    let mut m: Vec<(String, Json)> = Vec::new();
    m.push(member("apiKey", Json::Str(owned(api_key))));
    m.push(member("timestamp", Json::Number(u64_to_string(timestamp))));
    m.push(member("signature", Json::Str(sig)));
    Json::Object(m)
}

/// Signed payload of a per-symbol request: `{"symbol"}` followed by the
/// signed account members.
pub fn symbol_signed_payload(symbol: &str, api_key: &str, api_secret: &str, timestamp: u64) -> (r: Json)
    ensures
        r is Object,
        members(r).len() == 4,
        members(r)[0].0@ == "symbol"@ && str_is(members(r)[0].1, symbol@),
        signed_members_ok(members(r).drop_first(), api_key@, api_secret@, timestamp),
{
    let sig = auth_signature(api_secret, timestamp, api_key);
    let mut m: Vec<(String, Json)> = Vec::new();
    m.push(member("symbol", Json::Str(owned(symbol))));
    m.push(member("apiKey", Json::Str(owned(api_key))));
    m.push(member("timestamp", Json::Number(u64_to_string(timestamp))));
    m.push(member("signature", Json::Str(sig)));
    proof {
        let rest = m@.drop_first();
        assert(members(Json::Object(m)).drop_first() =~= rest);
    }
    Json::Object(m)
}

/// `{"op": "subscribe", "channel": …}`: subscribe the session to a push
/// channel (`portfolio` for book updates).
pub fn subscribe_frame(channel: &str) -> (r: Json)
    ensures
        r is Object,
        members(r).len() == 2,
        members(r)[0].0@ == "op"@ && str_is(members(r)[0].1, "subscribe"@),
        members(r)[1].0@ == "channel"@ && str_is(members(r)[1].1, channel@),
{
    let mut m: Vec<(String, Json)> = Vec::new();
    m.push(member("op", Json::Str(owned("subscribe"))));
    m.push(member("channel", Json::Str(owned(channel))));
    Json::Object(m)
}

/// The auth frame sent right after connecting.
pub fn auth_frame(api_key: &str, api_secret: &str, timestamp: u64) -> (r: Json)
    ensures
        r is Object,
        members(r).len() == 3,
        members(r)[0].0@ == "destination"@ && str_is(members(r)[0].1, AUTH_DESTINATION@),
        members(r)[1].0@ == "payload"@ && signed_payload_ok(
            members(r)[1].1,
            api_key@,
            api_secret@,
            timestamp,
        ),
        members(r)[2].0@ == "correlationId"@ && str_is(members(r)[2].1, AUTH_CORRELATION_ID@),
{
    let payload = signed_payload(api_key, api_secret, timestamp);
    request_frame(AUTH_DESTINATION, payload, AUTH_CORRELATION_ID)
}

/// A frame answers the request with correlation id `cid`.
pub fn is_response_to(frame: &Json, cid: &str) -> (r: bool)
    ensures
        r == (str_member(*frame, "correlationId"@) == Some(cid@)),
{
    match get_str(frame, "correlationId") {
        Some(c) => str_eq(c, cid),
        None => false,
    }
}

/// `value.as_u64()`: a non-negative integral number that fits `u64`.
pub open spec fn as_u64_spec(v: Json) -> Option<u64> {
    match v {
        Json::Number(n) => parse_u64_spec(n@),
        _ => None,
    }
}

pub(crate) fn as_u64(v: &Json) -> (r: Option<u64>)
    ensures
        r == as_u64_spec(*v),
{
    match v {
        Json::Number(n) => {
            let c = to_chars(n.as_str());
            parse_u64(c.as_slice())
        },
        _ => None,
    }
}

/// Server time of a time reply: `payload.serverTime`, else `serverTime`.
pub open spec fn server_time_spec(resp: Json) -> Option<u64> {
    let inner = match get_spec(resp, "payload"@) {
        Some(p) => match get_spec(p, "serverTime"@) {
            Some(t) => as_u64_spec(t),
            None => None,
        },
        None => None,
    };
    match inner {
        Some(t) => Some(t),
        None => match get_spec(resp, "serverTime"@) {
            Some(t) => as_u64_spec(t),
            None => None,
        },
    }
}

pub fn server_time(resp: &Json) -> (r: Result<u64, String>)
    ensures
        match r {
            Ok(t) => server_time_spec(*resp) == Some(t),
            Err(e) => server_time_spec(*resp) is None && e@ == "serverTime not found in time response"@,
        },
{
    if let Some(p) = get(resp, "payload") {
        if let Some(t) = get(p, "serverTime") {
            if let Some(v) = as_u64(t) {
                return Ok(v);
            }
        }
    }
    if let Some(t) = get(resp, "serverTime") {
        if let Some(v) = as_u64(t) {
            return Ok(v);
        }
    }
    Err(owned("serverTime not found in time response"))
}

/// What an incoming frame is, as far as the decoding rules go.
#[derive(Clone, Copy, Debug, PartialEq, Eq, Structural)]
pub enum FrameKind {
    Auth,
    Snapshot,
    PositionUpdate,
    Raw,
}

/// Decodes as an auth reply: `success` is a boolean and `reason`, when
/// present, is a string or null.
pub open spec fn auth_reply(v: Json) -> bool {
    (get_spec(v, "success"@) matches Some(Json::Bool(_))) && match get_spec(v, "reason"@) {
        None => true,
        Some(Json::Null) => true,
        Some(Json::Str(_)) => true,
        _ => false,
    }
}

/// Decodes as a position: `symbol` a string, `quantity` and `avg_price`
/// numbers.
pub open spec fn position_row(v: Json) -> bool {
    v is Object && (get_spec(v, "symbol"@) matches Some(Json::Str(_))) && (get_spec(
        v,
        "quantity"@,
    ) matches Some(Json::Number(_))) && (get_spec(v, "avg_price"@) matches Some(Json::Number(_)))
}

/// Decodes as a portfolio snapshot: an array of positions and an unsigned
/// `updated_at`.
pub open spec fn snapshot_body(v: Json) -> bool {
    (match get_spec(v, "positions"@) {
        Some(Json::Array(a)) => forall|i: int| 0 <= i < a@.len() ==> position_row(#[trigger] a@[i]),
        _ => false,
    }) && match get_spec(v, "updated_at"@) {
        Some(t) => as_u64_spec(t) is Some,
        None => false,
    }
}

pub open spec fn frame_kind_spec(v: Json) -> FrameKind {
    if !(v is Object) {
        FrameKind::Raw
    } else if str_member(v, "op"@) == Some("auth"@) && auth_reply(v) {
        FrameKind::Auth
    } else if str_member(v, "type"@) == Some("portfolio_snapshot"@) && snapshot_body(v) {
        FrameKind::Snapshot
    } else if str_member(v, "type"@) == Some("position_update"@) && position_row(v) {
        FrameKind::PositionUpdate
    } else {
        FrameKind::Raw
    }
}

fn is_auth_reply(v: &Json) -> (r: bool)
    ensures
        r == auth_reply(*v),
{
    let ok = match get(v, "success") {
        Some(Json::Bool(_)) => true,
        _ => false,
    };
    ok && match get(v, "reason") {
        None => true,
        Some(Json::Null) => true,
        Some(Json::Str(_)) => true,
        _ => false,
    }
}

fn is_position_row(v: &Json) -> (r: bool)
    ensures
        r == position_row(*v),
{
    match v {
        Json::Object(_) => {},
        _ => {
            return false;
        },
    }
    let a = match get(v, "symbol") {
        Some(Json::Str(_)) => true,
        _ => false,
    };
    let b = match get(v, "quantity") {
        Some(Json::Number(_)) => true,
        _ => false,
    };
    let c = match get(v, "avg_price") {
        Some(Json::Number(_)) => true,
        _ => false,
    };
    a && b && c
}

fn is_snapshot_body(v: &Json) -> (r: bool)
    ensures
        r == snapshot_body(*v),
{
    let rows_ok = match get(v, "positions") {
        Some(Json::Array(a)) => {
            let mut ok = true;
            let mut i: usize = 0;
            while i < a.len()
                invariant
                    i <= a@.len(),
                    ok == forall|k: int| 0 <= k < i ==> position_row(#[trigger] a@[k]),
                decreases a@.len() - i,
            {
                if !is_position_row(&a[i]) {
                    ok = false;
                }
                i = i + 1;
            }
            ok
        },
        _ => false,
    };
    rows_ok && match get(v, "updated_at") {
        Some(t) => as_u64(t).is_some(),
        None => false,
    }
}

/// Classify an incoming frame: an auth reply, a portfolio snapshot, a
/// position update, or anything else (kept raw).
pub fn frame_kind(v: &Json) -> (r: FrameKind)
    ensures
        r == frame_kind_spec(*v),
{
    match v {
        Json::Object(_) => {},
        _ => {
            return FrameKind::Raw;
        },
    }
    let op_auth = match get_str(v, "op") {
        Some(o) => str_eq(o, "auth"),
        None => false,
    };
    if op_auth && is_auth_reply(v) {
        return FrameKind::Auth;
    }
    let ty = get_str(v, "type");
    let snap = match ty {
        Some(t) => str_eq(t, "portfolio_snapshot"),
        None => false,
    };
    if snap && is_snapshot_body(v) {
        return FrameKind::Snapshot;
    }
    let upd = match ty {
        Some(t) => str_eq(t, "position_update"),
        None => false,
    };
    if upd && is_position_row(v) {
        return FrameKind::PositionUpdate;
    }
    FrameKind::Raw
}

/// Correlation id of a request: `{prefix}-{n}`.
pub fn correlation_id(prefix: &str, n: u64) -> (r: String)
    ensures
        r@ == prefix@ + "-"@ + dec(n as nat),
{
    let mut r = owned(prefix);
    r.append("-");
    let s = u64_to_string(n);
    r.append(s.as_str());
    r
}

} // verus!
