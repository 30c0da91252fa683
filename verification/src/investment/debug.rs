//! The debug-endpoint switch, and redaction of secret members in JSON
//! documents before they are shown.
use vstd::prelude::*;
use crate::json::Json;
use crate::investment::ws::{
    members, str_is, ws_api_prefix, ws_api_prefix_spec, ws_connect_url, ws_connect_url_spec,
};
use crate::text::{concat2, lower_seq, eq_ignore_ascii_case_lit, eq_ignore_case, owned, to_chars};

verus! {

/// `FINANCE_DEBUG` value `1` or `true` (any ASCII case).
pub open spec fn debug_flag(raw: Option<Seq<char>>) -> bool {
    match raw {
        Some(v) => v == "1"@ || eq_ignore_case(v, "true"@),
        None => false,
    }
}

/// Debug probes are on in debug builds, or when `FINANCE_DEBUG` (`raw`) is
/// `1` / `true` (any case).
pub fn finance_debug_enabled(debug_build: bool, raw: Option<&str>) -> (r: bool)
    ensures
        r == (debug_build || debug_flag(match raw {
            Some(v) => Some(v@),
            None => None,
        })),
{
    if debug_build {
        return true;
    }
    match raw {
        Some(v) => {
            let c = to_chars(v);
            crate::text::eq_lit(c.as_slice(), "1") || eq_ignore_ascii_case_lit(c.as_slice(), "true")
        },
        None => false,
    }
}

/// Member names whose values are replaced (compared ignoring ASCII case).
pub open spec fn is_secret_key(k: Seq<char>) -> bool {
    eq_ignore_case(k, "apiKey"@) || eq_ignore_case(k, "api_key"@) || eq_ignore_case(
        k,
        "apiSecret"@,
    ) || eq_ignore_case(k, "api_secret"@) || eq_ignore_case(k, "signature"@) || eq_ignore_case(
        k,
        "Authorization"@,
    ) || eq_ignore_case(k, "authorization"@) || eq_ignore_case(k, "token"@) || eq_ignore_case(
        k,
        "password"@,
    ) || eq_ignore_case(k, "secret"@)
}

/// The secret member names, compared ignoring ASCII case: a member is
/// secret exactly when its lower-cased name is `apikey`, `api_key`,
/// `apisecret`, `api_secret`, `signature`, `authorization`, `token`,
/// `password` or `secret`.
pub proof fn lemma_secret_names(k: Seq<char>)
    ensures
        is_secret_key(k) <==> (lower_seq(k) == "apikey"@ || lower_seq(k) == "api_key"@ || lower_seq(k) == "apisecret"@ || lower_seq(k) == "api_secret"@ || lower_seq(k) == "signature"@ || lower_seq(k) == "authorization"@ || lower_seq(k) == "token"@ || lower_seq(k) == "password"@ || lower_seq(k) == "secret"@),
{
    reveal_strlit("apiKey");
    reveal_strlit("api_key");
    reveal_strlit("apiSecret");
    reveal_strlit("api_secret");
    reveal_strlit("signature");
    reveal_strlit("Authorization");
    reveal_strlit("token");
    reveal_strlit("password");
    reveal_strlit("secret");
    reveal_strlit("authorization");
    reveal_strlit("apikey");
    reveal_strlit("apisecret");
    assert(lower_seq("apiKey"@) =~= "apikey"@);
    assert(lower_seq("api_key"@) =~= "api_key"@);
    assert(lower_seq("apiSecret"@) =~= "apisecret"@);
    assert(lower_seq("api_secret"@) =~= "api_secret"@);
    assert(lower_seq("signature"@) =~= "signature"@);
    assert(lower_seq("Authorization"@) =~= "authorization"@);
    assert(lower_seq("token"@) =~= "token"@);
    assert(lower_seq("password"@) =~= "password"@);
    assert(lower_seq("secret"@) =~= "secret"@);
    assert(lower_seq("authorization"@) =~= "authorization"@);
}

/// Redaction replaces the value of every member with a secret name (such as
/// `Authorization`, any case) by `[redacted]`, keeping its name.
pub proof fn lemma_secret_member_redacted(v: Json, r: Json, i: int)
    requires
        redacted(v, r),
        v matches Json::Object(m) && 0 <= i < m@.len() && is_secret_key(m@[i].0@),
    ensures
        r matches Json::Object(rm) && rm@[i].0@ == v->Object_0@[i].0@ && is_redacted_marker(rm@[i].1),
{
}

fn secret_key(k: &str) -> (r: bool)
    ensures
        r == is_secret_key(k@),
{
    let c = to_chars(k);
    let c = c.as_slice();
    eq_ignore_ascii_case_lit(c, "apiKey") || eq_ignore_ascii_case_lit(c, "api_key")
        || eq_ignore_ascii_case_lit(c, "apiSecret") || eq_ignore_ascii_case_lit(c, "api_secret")
        || eq_ignore_ascii_case_lit(c, "signature") || eq_ignore_ascii_case_lit(c, "Authorization")
        || eq_ignore_ascii_case_lit(c, "authorization") || eq_ignore_ascii_case_lit(c, "token")
        || eq_ignore_ascii_case_lit(c, "password") || eq_ignore_ascii_case_lit(c, "secret")
}

pub open spec fn is_redacted_marker(v: Json) -> bool {
    v matches Json::Str(s) && s@ == "[redacted]"@
}

/// `r` is `v` with the value of every secret-named member, at any depth,
/// replaced by the string `[redacted]`; everything else is kept in place.
pub open spec fn redacted(v: Json, r: Json) -> bool
    decreases v,
{
    match v {
        Json::Object(m) => match r {
            Json::Object(rm) => rm@.len() == m@.len() && forall|i: int|
                #![trigger rm@[i]]
                0 <= i < m@.len() ==> rm@[i].0@ == m@[i].0@ && (if is_secret_key(m@[i].0@) {
                    is_redacted_marker(rm@[i].1)
                } else {
                    redacted(m@[i].1, rm@[i].1)
                }),
            _ => false,
        },
        Json::Array(a) => match r {
            Json::Array(ra) => ra@.len() == a@.len() && forall|i: int|
                #![trigger ra@[i]]
                0 <= i < a@.len() ==> redacted(a@[i], ra@[i]),
            _ => false,
        },
        Json::Null => r is Null,
        Json::Bool(b) => r == Json::Bool(b),
        Json::Number(n) => r matches Json::Number(rn) && rn@ == n@,
        Json::Str(s) => r matches Json::Str(rs) && rs@ == s@,
    }
}

/// No secret-named member, at any depth, holds anything but `[redacted]`.
pub open spec fn free_of_secrets(v: Json) -> bool
    decreases v,
{
    match v {
        Json::Object(m) => forall|i: int|
            #![trigger m@[i]]
            0 <= i < m@.len() ==> (if is_secret_key(m@[i].0@) {
                is_redacted_marker(m@[i].1)
            } else {
                free_of_secrets(m@[i].1)
            }),
        Json::Array(a) => forall|i: int| #![trigger a@[i]] 0 <= i < a@.len() ==> free_of_secrets(a@[i]),
        _ => true,
    }
}

fn redact_value(v: &Json) -> (r: Json)
    ensures
        redacted(*v, r),
        free_of_secrets(r),
    decreases v,
{
    match v {
        Json::Null => Json::Null,
        Json::Bool(b) => Json::Bool(*b),
        Json::Number(n) => Json::Number(n.clone()),
        Json::Str(s) => Json::Str(s.clone()),
        Json::Array(a) => {
            let mut out: Vec<Json> = Vec::new();
            let mut i: usize = 0;
            while i < a.len()
                invariant
                    i <= a@.len(),
                    out@.len() == i,
                    forall|k: int|
                        #![trigger out@[k]]
                        0 <= k < i ==> redacted(a@[k], out@[k]) && free_of_secrets(out@[k]),
                    *v is Array && v->Array_0 == *a,
                decreases a@.len() - i,
            {
                assert(decreases_to!(*v => a@[i as int]));
                let c = redact_value(&a[i]);
                out.push(c);
                i = i + 1;
            }
            Json::Array(out)
        },
        Json::Object(m) => {
            let mut out: Vec<(String, Json)> = Vec::new();
            let mut i: usize = 0;
            while i < m.len()
                invariant
                    i <= m@.len(),
                    out@.len() == i,
                    forall|k: int|
                        #![trigger out@[k]]
                        0 <= k < i ==> out@[k].0@ == m@[k].0@ && (if is_secret_key(m@[k].0@) {
                            is_redacted_marker(out@[k].1)
                        } else {
                            redacted(m@[k].1, out@[k].1) && free_of_secrets(out@[k].1)
                        }),
                    *v is Object && v->Object_0 == *m,
                decreases m@.len() - i,
            {
                let key = m[i].0.clone();
                if secret_key(m[i].0.as_str()) {
                    out.push((key, Json::Str(owned("[redacted]"))));
                } else {
                    assert(decreases_to!(*v => m@[i as int].1));
                    let c = redact_value(&m[i].1);
                    out.push((key, c));
                }
                i = i + 1;
            }
            let r = Json::Object(out);
            assert(free_of_secrets(r)) by {
                assert forall|k: int| 0 <= k < out@.len() implies (if is_secret_key(out@[k].0@) {
                    is_redacted_marker(out@[k].1)
                } else {
                    free_of_secrets(out@[k].1)
                }) by {
                    assert(out@[k].0@ == m@[k].0@);
                }
            }
            r
        },
    }
}

/// Recursively replace the values of secret-looking members (`apiKey`,
/// `signature`, `token`, …, any ASCII case) with `[redacted]`.
pub fn redact_secrets(value: Json) -> (r: Json)
    ensures
        redacted(value, r),
        free_of_secrets(r),
{
    redact_value(&value)
}

/// A redacted document is left as it is by a second redaction.
pub proof fn lemma_redaction_idempotent(v: Json, r: Json)
    requires
        redacted(v, r),
    ensures
        redacted(r, r),
    decreases v,
{
    match v {
        Json::Object(m) => {
            let rm = r->Object_0;
            assert forall|i: int| #![trigger rm@[i]] 0 <= i < rm@.len() implies rm@[i].0@ == rm@[i].0@
                && (if is_secret_key(rm@[i].0@) {
                is_redacted_marker(rm@[i].1)
            } else {
                redacted(rm@[i].1, rm@[i].1)
            }) by {
                assert(rm@[i].0@ == m@[i].0@);
                if !is_secret_key(m@[i].0@) {
                    assert(decreases_to!(v => m@[i].1));
                    lemma_redaction_idempotent(m@[i].1, rm@[i].1);
                }
            }
        },
        Json::Array(a) => {
            let ra = r->Array_0;
            assert forall|i: int| #![trigger ra@[i]] 0 <= i < ra@.len() implies redacted(
                ra@[i],
                ra@[i],
            ) by {
                assert(decreases_to!(v => a@[i]));
                lemma_redaction_idempotent(a@[i], ra@[i]);
            }
        },
        _ => {},
    }
}


/// Paths, under the API prefix, of the WebSocket destinations used by
/// quotes and the portfolio.
pub open spec fn ws_destination_paths() -> Seq<Seq<char>> {
    seq![
        "/auth"@,
        "/time"@,
        "/ticker/24hr"@,
        "/depth"@,
        "/exchangeInfo"@,
        "/account"@,
        "/deposits"@,
        "/myTrades"@,
    ]
}

pub open spec fn elements(v: Json) -> Seq<Json> {
    match v {
        Json::Array(a) => a@,
        _ => Seq::empty(),
    }
}

/// Text of the `notes` member of the WebSocket topic listing.
pub open spec fn ws_topics_note() -> Seq<char> {
    "Read-only probe. Auth destination requires signed payload; never returned here."@
}

/// Known WebSocket destinations and channels for a REST base URL:
/// `{connect_url, api_prefix, destinations, subscribe_channels, notes}`.
pub fn ws_topics(rest_base_url: &str) -> (r: Json)
    ensures
        r is Object,
        members(r).len() == 5,
        members(r)[0].0@ == "connect_url"@ && str_is(
            members(r)[0].1,
            ws_connect_url_spec(rest_base_url@),
        ),
        members(r)[1].0@ == "api_prefix"@ && str_is(
            members(r)[1].1,
            ws_api_prefix_spec(rest_base_url@),
        ),
        members(r)[2].0@ == "destinations"@ && members(r)[2].1 is Array && elements(
            members(r)[2].1,
        ).len() == ws_destination_paths().len() && forall|i: int|
            0 <= i < ws_destination_paths().len() ==> str_is(
                #[trigger] elements(members(r)[2].1)[i],
                ws_api_prefix_spec(rest_base_url@) + ws_destination_paths()[i],
            ),
        members(r)[3].0@ == "subscribe_channels"@ && members(r)[3].1 is Array && elements(
            members(r)[3].1,
        ).len() == 1 && str_is(elements(members(r)[3].1)[0], "portfolio"@),
        members(r)[4].0@ == "notes"@ && str_is(members(r)[4].1, ws_topics_note()),
{
    let prefix = ws_api_prefix(rest_base_url);
    let p = prefix.as_str();
    let mut dests: Vec<Json> = Vec::new();
    dests.push(Json::Str(concat2(p, "/auth")));
    dests.push(Json::Str(concat2(p, "/time")));
    dests.push(Json::Str(concat2(p, "/ticker/24hr")));
    dests.push(Json::Str(concat2(p, "/depth")));
    dests.push(Json::Str(concat2(p, "/exchangeInfo")));
    dests.push(Json::Str(concat2(p, "/account")));
    dests.push(Json::Str(concat2(p, "/deposits")));
    dests.push(Json::Str(concat2(p, "/myTrades")));
    let mut channels: Vec<Json> = Vec::new();
    channels.push(Json::Str(owned("portfolio")));
    let mut m: Vec<(String, Json)> = Vec::new();
    m.push((owned("connect_url"), Json::Str(ws_connect_url(rest_base_url))));
    m.push((owned("api_prefix"), Json::Str(owned(p))));
    m.push((owned("destinations"), Json::Array(dests)));
    m.push((owned("subscribe_channels"), Json::Array(channels)));
    m.push((
        owned("notes"),
        Json::Str(
            owned("Read-only probe. Auth destination requires signed payload; never returned here."),
        ),
    ));
    let r = Json::Object(m);
    proof {
        let d = elements(members(r)[2].1);
        assert forall|i: int| 0 <= i < ws_destination_paths().len() implies str_is(
            #[trigger] d[i],
            ws_api_prefix_spec(rest_base_url@) + ws_destination_paths()[i],
        ) by {
            assert(d == dests@);
        }
    }
    r
}

} // verus!
