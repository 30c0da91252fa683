//! Telegram alert delivery: configuration, Bot API URL, error scrubbing,
//! log truncation, message labels and the retry backoff.
//!
//! Sending and the outbox queries are done by the caller; the token never
//! appears in a debug rendering or in a scrubbed error.
use vstd::prelude::*;
use crate::investment::config::{
    env_flag_or, flag_or, nonempty, opt_view, ResolvedTelegram, MAX_TELEGRAM_BATCH_LIMIT,
    MAX_TELEGRAM_POLL_SECS, TELEGRAM_HTTP_TIMEOUT_SECS,
};
use crate::investment::secret::Secret;
use crate::json::{get, get_spec, get_str, str_member, Json};
use crate::investment::watches::{compare_name, WatchCompare, WatchRule};
use crate::num::{parse_i64, parse_i64_spec, parse_u64, parse_u64_spec};
use crate::text::{
    contains_seq, find, first_stop_spec, lemma_first_stop_range, lemma_replace_leaves_mark,
    lemma_replace_removes, no_char, occurs_at, owned, replace, replace_all, string_of_range,
    take_chars, to_chars, from_chars, trim_chars,
};

verus! {

/// Default outbox poll interval (seconds).
pub const DEFAULT_POLL_INTERVAL_SECS: u64 = 30;

/// Soft cap per drain cycle.
pub const DEFAULT_BATCH_LIMIT: i64 = 20;

/// Initial backoff after a send failure (seconds).
pub const DEFAULT_FAILURE_BACKOFF_SECS: u64 = 5;

/// Max backoff after consecutive send failures (seconds).
pub const MAX_FAILURE_BACKOFF_SECS: u64 = 300;

/// Legacy gate from `TRADING_TELEGRAM_DELIVERY` (`raw` is its value when set).
pub fn telegram_delivery_enabled(raw: Option<&str>) -> (r: bool)
    ensures
        r == flag_or(opt_view(raw), false),
{
    env_flag_or(raw, false)
}

/// Delivery credentials and knobs.
pub struct TelegramDeliveryConfig {
    pub bot_token: Secret,
    pub chat_id: Secret,
    pub poll_interval_secs: u64,
    pub batch_limit: i64,
    pub http_timeout_secs: u64,
}

/// Raw values of `TELEGRAM_BOT_TOKEN`, `TELEGRAM_CHAT_ID`,
/// `TRADING_TELEGRAM_POLL_SECS` and `TRADING_TELEGRAM_BATCH_LIMIT`.
pub struct DeliveryEnv {
    pub bot_token: Option<String>,
    pub chat_id: Option<String>,
    pub poll_secs: Option<String>,
    pub batch_limit: Option<String>,
}

pub open spec fn opt_string_view(raw: Option<String>) -> Option<Seq<char>> {
    match raw {
        Some(v) => Some(v@),
        None => None,
    }
}

/// A positive value that parses as written (no trimming).
pub open spec fn positive_u64_raw(raw: Option<Seq<char>>) -> Option<u64> {
    match raw {
        Some(v) => match parse_u64_spec(v) {
            Some(n) => if n > 0 {
                Some(n)
            } else {
                None
            },
            None => None,
        },
        None => None,
    }
}

pub open spec fn positive_i64_raw(raw: Option<Seq<char>>) -> Option<i64> {
    match raw {
        Some(v) => match parse_i64_spec(v) {
            Some(n) => if n > 0 {
                Some(n)
            } else {
                None
            },
            None => None,
        },
        None => None,
    }
}

fn nonempty_trimmed(raw: &Option<String>) -> (r: Option<String>)
    ensures
        match r {
            Some(v) => nonempty(opt_string_view(*raw)) == Some(v@),
            None => nonempty(opt_string_view(*raw)) is None,
        },
{
    match raw {
        Some(v) => {
            let c = to_chars(v.as_str());
            let t = trim_chars(c.as_slice());
            if t.len() > 0 {
                Some(from_chars(t.as_slice()))
            } else {
                None
            }
        },
        None => None,
    }
}

impl TelegramDeliveryConfig {
    /// From environment values: `None` when the token or chat id is unset or
    /// blank. A positive poll override is capped at 600 s, a positive batch
    /// override at 100; otherwise 30 s and 20.
    pub fn from_env(env: &DeliveryEnv) -> (r: Option<TelegramDeliveryConfig>)
        ensures
            match r {
                None => nonempty(opt_string_view(env.bot_token)) is None || nonempty(
                    opt_string_view(env.chat_id),
                ) is None,
                Some(c) => nonempty(opt_string_view(env.bot_token)) == Some(c.bot_token@)
                    && nonempty(opt_string_view(env.chat_id)) == Some(c.chat_id@)
                    && c.poll_interval_secs == (match positive_u64_raw(
                    opt_string_view(env.poll_secs),
                ) {
                    Some(n) => if n < MAX_TELEGRAM_POLL_SECS {
                        n
                    } else {
                        MAX_TELEGRAM_POLL_SECS
                    },
                    None => DEFAULT_POLL_INTERVAL_SECS,
                }) && c.batch_limit == (match positive_i64_raw(opt_string_view(env.batch_limit)) {
                    Some(n) => if n < MAX_TELEGRAM_BATCH_LIMIT {
                        n
                    } else {
                        MAX_TELEGRAM_BATCH_LIMIT
                    },
                    None => DEFAULT_BATCH_LIMIT,
                }) && c.http_timeout_secs == TELEGRAM_HTTP_TIMEOUT_SECS,
            },
    {
        let token = match nonempty_trimmed(&env.bot_token) {
            Some(t) => t,
            None => {
                return None;
            },
        };
        let chat = match nonempty_trimmed(&env.chat_id) {
            Some(t) => t,
            None => {
                return None;
            },
        };
        let mut poll = DEFAULT_POLL_INTERVAL_SECS;
        if let Some(v) = &env.poll_secs {
            let c = to_chars(v.as_str());
            if let Some(n) = parse_u64(c.as_slice()) {
                if n > 0 {
                    poll = if n < MAX_TELEGRAM_POLL_SECS {
                        n
                    } else {
                        MAX_TELEGRAM_POLL_SECS
                    };
                }
            }
        }
        let mut batch = DEFAULT_BATCH_LIMIT;
        if let Some(v) = &env.batch_limit {
            let c = to_chars(v.as_str());
            if let Some(n) = parse_i64(c.as_slice()) {
                if n > 0 {
                    batch = if n < MAX_TELEGRAM_BATCH_LIMIT {
                        n
                    } else {
                        MAX_TELEGRAM_BATCH_LIMIT
                    };
                }
            }
        }
        Some(
            TelegramDeliveryConfig {
                bot_token: Secret::new(token),
                chat_id: Secret::new(chat),
                poll_interval_secs: poll,
                batch_limit: batch,
                http_timeout_secs: TELEGRAM_HTTP_TIMEOUT_SECS,
            },
        )
    }

    /// From the resolved settings, with the shared bot token and the primary
    /// chat; `None` without credentials.
    pub fn from_resolved(resolved: &ResolvedTelegram) -> (r: Option<TelegramDeliveryConfig>)
        ensures
            match r {
                None => !(resolved.bot_token@.len() > 0 && resolved.allowlist@.len() > 0),
                Some(c) => resolved.bot_token@.len() > 0 && resolved.allowlist@.len() > 0
                    && c.bot_token@ == resolved.bot_token@ && c.chat_id@ == resolved.chat_id@
                    && c.poll_interval_secs == resolved.poll_interval_secs && c.batch_limit
                    == resolved.batch_limit && c.http_timeout_secs == resolved.http_timeout_secs,
            },
    {
        if !resolved.credentials_ok() {
            return None;
        }
        Some(
            TelegramDeliveryConfig {
                bot_token: resolved.bot_token.duplicate(),
                chat_id: resolved.chat_id.duplicate(),
                poll_interval_secs: resolved.poll_interval_secs,
                batch_limit: resolved.batch_limit,
                http_timeout_secs: resolved.http_timeout_secs,
            },
        )
    }

    /// Debug rendering: knobs only, token and chat redacted.
    pub fn debug_string(&self) -> (r: String)
        ensures
            r@ == "TelegramDeliveryConfig { bot_token: \"[redacted]\", chat_id: \"[redacted]\", poll_interval: "@
                + crate::num::dec(self.poll_interval_secs as nat) + "s, batch_limit: "@
                + crate::num::dec_int(self.batch_limit as int) + ", http_timeout: "@
                + crate::num::dec(self.http_timeout_secs as nat) + "s }"@,
    {
        let mut r = owned(
            "TelegramDeliveryConfig { bot_token: \"[redacted]\", chat_id: \"[redacted]\", poll_interval: ",
        );
        let p = crate::num::u64_to_string(self.poll_interval_secs);
        r.append(p.as_str());
        r.append("s, batch_limit: ");
        let b = crate::num::i64_to_string(self.batch_limit);
        r.append(b.as_str());
        r.append(", http_timeout: ");
        let h = crate::num::u64_to_string(self.http_timeout_secs);
        r.append(h.as_str());
        r.append("s }");
        r
    }
}

/// Bot API `sendMessage` URL; it holds the token, so it is never logged.
pub fn send_message_url(bot_token: &str) -> (r: String)
    ensures
        r@ == "https://api.telegram.org/bot"@ + bot_token@ + "/sendMessage"@,
{
    let mut r = owned("https://api.telegram.org/bot");
    r.append(bot_token);
    r.append("/sendMessage");
    r
}

// ---------------------------------------------------------------------------
// Error scrubbing and truncation
// ---------------------------------------------------------------------------

/// Index of the first occurrence of `p` in `s`.
pub open spec fn first_occurrence(s: Seq<char>, p: Seq<char>) -> Option<int> {
    if exists|i: int| occurs_at(s, p, i) && forall|j: int| 0 <= j < i ==> !occurs_at(s, p, j) {
        Some(choose|i: int| occurs_at(s, p, i) && forall|j: int| 0 <= j < i ==> !occurs_at(s, p, j))
    } else {
        None
    }
}

/// An error text with the token replaced by `[redacted]` everywhere, and a
/// Bot API path cut at its first space, quote, line break or `?` and
/// replaced by `api.telegram.org/bot[redacted]`.
pub open spec fn sanitize_spec(raw: Seq<char>, bot_token: Seq<char>) -> Seq<char> {
    let out = replace(raw, bot_token, "[redacted]"@);
    match first_occurrence(out, "api.telegram.org/bot"@) {
        None => out,
        Some(idx) => {
            let rest = out.subrange(idx, out.len() as int);
            match first_stop_spec(rest) {
                Some(end) => out.subrange(0, idx) + "api.telegram.org/bot[redacted]"@
                    + rest.subrange(end, rest.len() as int),
                None => out.subrange(0, idx) + "api.telegram.org/bot[redacted]"@,
            }
        },
    }
}

/// A scrubbed error never holds the bot token, when the token is non-empty,
/// has no square bracket and does not occur in
/// `api.telegram.org/bot[redacted]`; and when the raw text held the token,
/// the scrubbed text holds `[redacted]`.
pub proof fn lemma_sanitize_hides_token(raw: Seq<char>, token: Seq<char>)
    requires
        token.len() > 0,
        no_char(token, '['),
        no_char(token, ']'),
        !contains_seq("api.telegram.org/bot[redacted]"@, token),
    ensures
        !contains_seq(sanitize_spec(raw, token), token),
        contains_seq(raw, token) ==> contains_seq(sanitize_spec(raw, token), "[redacted]"@),
{
    let m = "[redacted]"@;
    let p = "api.telegram.org/bot[redacted]"@;
    let q = "api.telegram.org/bot"@;
    reveal_strlit("[redacted]");
    reveal_strlit("api.telegram.org/bot[redacted]");
    reveal_strlit("api.telegram.org/bot");
    let n = token.len();
    assert(p.subrange(20, 30) =~= m);
    assert(p.subrange(0, 20) =~= q);
    if contains_seq(m, token) {
        let i = choose|i: int| occurs_at(m, token, i);
        assert(p.subrange(i + 20, i + 20 + n) =~= m.subrange(i, i + n));
        assert(occurs_at(p, token, i + 20));
    }
    lemma_replace_removes(raw, token, m);
    let out = replace(raw, token, m);
    if contains_seq(raw, token) {
        lemma_replace_leaves_mark(raw, token, m);
    }
    let r = sanitize_spec(raw, token);
    match first_occurrence(out, q) {
        None => {},
        Some(idx) => {
            assert(occurs_at(out, q, idx));
            let rest = out.subrange(idx, out.len() as int);
            let pre = out.subrange(0, idx);
            let (post, off) = match first_stop_spec(rest) {
                Some(end) => {
                    lemma_first_stop_range(rest, 0, end);
                    (rest.subrange(end, rest.len() as int), idx + end)
                },
                None => (Seq::<char>::empty(), out.len() as int),
            };
            assert(post =~= out.subrange(off, out.len() as int));
            assert(r =~= pre + p + post);
            let a = idx;
            let b = idx + 30;
            if contains_seq(raw, token) {
                assert(r.subrange(a + 20, a + 30) =~= m);
                assert(occurs_at(r, m, a + 20));
            }
            if contains_seq(r, token) {
                let i = choose|i: int| occurs_at(r, token, i);
                let w = r.subrange(i, i + n);
                if i + n <= a {
                    assert(out.subrange(i, i + n) =~= w);
                    assert(occurs_at(out, token, i));
                } else if i >= b {
                    assert(out.subrange(i - b + off, i - b + off + n) =~= w);
                    assert(occurs_at(out, token, i - b + off));
                } else if a <= i && i + n <= b {
                    assert(p.subrange(i - a, i - a + n) =~= w);
                    assert(occurs_at(p, token, i - a));
                } else if i <= b - 1 && b - 1 < i + n {
                    assert(r[b - 1] == ']');
                    assert(w[b - 1 - i] == r[b - 1]);
                    assert(token[b - 1 - i] == ']');
                } else if i + n <= a + 20 {
                    assert forall|k: int| i <= k < i + n implies #[trigger] r[k] == out[k] by {
                        if k >= a {
                            assert(r[k] == p[k - a]);
                            assert(p[k - a] == q[k - a]);
                            assert(out.subrange(a, a + 20)[k - a] == out[k]);
                        }
                    }
                    assert(out.subrange(i, i + n) =~= w);
                    assert(occurs_at(out, token, i));
                } else {
                    assert(r[a + 20] == '[');
                    assert(w[a + 20 - i] == r[a + 20]);
                    assert(token[a + 20 - i] == '[');
                }
            }
        },
    }
}

fn first_stop(a: &[char]) -> (r: Option<usize>)
    ensures
        match r {
            Some(k) => first_stop_spec(a@) == Some(k as int) && k < a@.len(),
            None => first_stop_spec(a@) is None,
        },
{
    let mut i: usize = 0;
    while i < a.len()
        invariant
            i <= a@.len(),
            first_stop_spec(a@) == crate::text::first_stop_from(a@, i as int),
        decreases a@.len() - i,
    {
        let c = a[i];
        if c == ' ' || c == '"' || c == '\n' || c == '\r' || c == '?' {
            return Some(i);
        }
        i = i + 1;
    }
    None
}

/// Scrub a Telegram error so that neither the token nor a Bot API URL path
/// reaches a log.
pub fn sanitize_telegram_error(raw: &str, bot_token: &str) -> (r: String)
    ensures
        r@ == sanitize_spec(raw@, bot_token@),
{
    let rv = to_chars(raw);
    let tv = to_chars(bot_token);
    let rep = to_chars("[redacted]");
    let out = replace_all(rv.as_slice(), tv.as_slice(), rep.as_slice());
    let needle = to_chars("api.telegram.org/bot");
    match find(out.as_slice(), needle.as_slice()) {
        None => {
            proof {
                let o = out@;
                let p = "api.telegram.org/bot"@;
                if exists|i: int| occurs_at(o, p, i) && forall|j: int| 0 <= j < i ==> !occurs_at(o, p, j) {
                    let i = choose|i: int| occurs_at(o, p, i) && forall|j: int|
                        0 <= j < i ==> !occurs_at(o, p, j);
                    assert(contains_seq(o, p));
                }
            }
            from_chars(out.as_slice())
        },
        Some(idx) => {
            proof {
                let o = out@;
                let p = "api.telegram.org/bot"@;
                let w = choose|i: int| occurs_at(o, p, i) && forall|j: int|
                    0 <= j < i ==> !occurs_at(o, p, j);
                assert(occurs_at(o, p, idx as int));
                if w < idx {
                } else if w > idx {
                }
                assert(first_occurrence(o, p) == Some(idx as int));
            }
            let mut rest: Vec<char> = Vec::new();
            let mut i: usize = idx;
            while i < out.len()
                invariant
                    idx <= i <= out@.len(),
                    rest@ == out@.subrange(idx as int, i as int),
                decreases out@.len() - i,
            {
                rest.push(out[i]);
                i = i + 1;
                assert(rest@ =~= out@.subrange(idx as int, i as int));
            }
            let mut r = string_of_range(out.as_slice(), 0, idx);
            r.append("api.telegram.org/bot[redacted]");
            match first_stop(rest.as_slice()) {
                Some(end) => {
                    let tail = string_of_range(rest.as_slice(), end, rest.len());
                    r.append(tail.as_str());
                },
                None => {},
            }
            r
        },
    }
}

/// `s` when at most `max` characters, else its first `max` characters and `…`.
pub open spec fn truncate_spec(s: Seq<char>, max: nat) -> Seq<char> {
    if s.len() <= max {
        s
    } else {
        take_chars(s, max) + "…"@
    }
}

/// Shorten a log excerpt to `max` characters (plus an ellipsis).
pub fn truncate_for_log(s: &str, max: usize) -> (r: String)
    ensures
        r@ == truncate_spec(s@, max as nat),
{
    let v = to_chars(s);
    if v.len() <= max {
        owned(s)
    } else {
        let mut r = string_of_range(v.as_slice(), 0, max);
        r.append("…");
        r
    }
}

// ---------------------------------------------------------------------------
// Message labels
// ---------------------------------------------------------------------------

pub open spec fn glyph_spec(c: WatchCompare) -> Seq<char> {
    match c {
        WatchCompare::Lte => "≤"@,
        WatchCompare::Gte => "≥"@,
        WatchCompare::AbsGte => "|·|≥"@,
    }
}

/// Each comparison has its own glyph, and the glyph reads as the
/// comparison's name: `≤` exactly for `lte` (at most the threshold), `≥`
/// exactly for `gte` (at least), `|·|≥` exactly for `abs_gte` (magnitude at
/// least).
pub proof fn lemma_glyph_names_comparison(a: WatchCompare, b: WatchCompare)
    ensures
        glyph_spec(a) == glyph_spec(b) ==> a == b,
        glyph_spec(a) == "≤"@ <==> compare_name(a) == "lte"@,
        glyph_spec(a) == "≥"@ <==> compare_name(a) == "gte"@,
        glyph_spec(a) == "|·|≥"@ <==> compare_name(a) == "abs_gte"@,
{
    reveal_strlit("≤");
    reveal_strlit("≥");
    reveal_strlit("|·|≥");
    reveal_strlit("lte");
    reveal_strlit("gte");
    reveal_strlit("abs_gte");
    assert("≤"@.len() == 1 && "≤"@[0] == '≤');
    assert("≥"@.len() == 1 && "≥"@[0] == '≥');
    assert("|·|≥"@.len() == 4);
    assert("lte"@.len() == 3 && "lte"@[0] == 'l');
    assert("gte"@.len() == 3 && "gte"@[0] == 'g');
    assert("abs_gte"@.len() == 7);
}

/// Comparison glyph used in alert and `/watches` lines.
pub fn compare_glyph(compare: WatchCompare) -> (r: &'static str)
    ensures
        r@ == glyph_spec(compare),
{
    match compare {
        WatchCompare::Lte => "≤",
        WatchCompare::Gte => "≥",
        WatchCompare::AbsGte => "|·|≥",
    }
}

pub open spec fn rule_label_spec(rule: WatchRule) -> Seq<char> {
    match rule {
        WatchRule::DayChangePct => "day"@,
        WatchRule::MarkVsEntryPct => "vs entry"@,
        WatchRule::NavDayChangePct => "nav day"@,
        WatchRule::CashBelow => "cash"@,
        WatchRule::WeightBookPctAbove => "weight"@,
    }
}

/// Short rule label of an alert headline.
pub fn rule_short_label(rule: WatchRule) -> (r: &'static str)
    ensures
        r@ == rule_label_spec(rule),
{
    match rule {
        WatchRule::DayChangePct => "day",
        WatchRule::MarkVsEntryPct => "vs entry",
        WatchRule::NavDayChangePct => "nav day",
        WatchRule::CashBelow => "cash",
        WatchRule::WeightBookPctAbove => "weight",
    }
}

// ---------------------------------------------------------------------------
// Retry backoff
// ---------------------------------------------------------------------------

/// Backoff after one more failure: doubled, capped at `cap`.
pub open spec fn next_backoff_spec(cur: u64, cap: u64) -> u64 {
    if 2 * cur < cap {
        (2 * cur) as u64
    } else {
        cap
    }
}

/// Double the backoff, capped at `cap` (the consumer uses 300 s).
pub fn next_failure_backoff(cur: u64, cap: u64) -> (r: u64)
    requires
        cur <= u64::MAX / 2,
    ensures
        r == next_backoff_spec(cur, cap),
        r <= cap,
{
    let d = cur * 2;
    if d < cap {
        d
    } else {
        cap
    }
}

/// Starting from a backoff within `[start, cap]`, every further failure
/// keeps it within `[start, cap]` and never lowers it.
pub proof fn lemma_backoff_stays_bounded(cur: u64, start: u64, cap: u64)
    requires
        start <= cur <= cap,
    ensures
        start <= next_backoff_spec(cur, cap) <= cap,
        cur <= next_backoff_spec(cur, cap),
{
}


// ---------------------------------------------------------------------------
// Bot API replies
// ---------------------------------------------------------------------------

/// `ok` member of a Bot API reply, when it is a boolean.
pub open spec fn ok_flag(v: Json) -> Option<bool> {
    match get_spec(v, "ok"@) {
        Some(Json::Bool(b)) => Some(b),
        _ => None,
    }
}

/// `description` member of a reply, `ok=false` when absent.
pub open spec fn reply_description(v: Json) -> Seq<char> {
    match str_member(v, "description"@) {
        Some(d) => d,
        None => "ok=false"@,
    }
}

fn ok_member(v: &Json) -> (r: Option<bool>)
    ensures
        r == ok_flag(*v),
{
    match get(v, "ok") {
        Some(Json::Bool(b)) => Some(*b),
        _ => None,
    }
}

fn description(v: &Json) -> (r: String)
    ensures
        r@ == reply_description(*v),
{
    match get_str(v, "description") {
        Some(d) => owned(d),
        None => owned("ok=false"),
    }
}

/// Error of a non-success HTTP status: the body is scrubbed and cut to 200
/// characters.
pub open spec fn http_error_spec(op: Seq<char>, status: u16, body: Seq<char>, bot_token: Seq<char>) -> Seq<char> {
    "telegram "@ + op + " HTTP "@ + crate::num::dec(status as nat) + " (body redacted/truncated): "@
        + truncate_spec(sanitize_spec(body, bot_token), 200)
}

pub fn http_error(op: &str, status: u16, body: &str, bot_token: &str) -> (r: String)
    ensures
        r@ == http_error_spec(op@, status, body@, bot_token@),
{
    let mut e = owned("telegram ");
    e.append(op);
    e.append(" HTTP ");
    let c = crate::num::u64_to_string(status as u64);
    e.append(c.as_str());
    e.append(" (body redacted/truncated): ");
    let s = sanitize_telegram_error(body, bot_token);
    let t = truncate_for_log(s.as_str(), 200);
    e.append(t.as_str());
    e
}

/// Error of a failed transport; the URL (holding the token) is scrubbed.
pub fn transport_error(op: &str, raw: &str, bot_token: &str) -> (r: String)
    ensures
        r@ == "telegram "@ + op@ + " transport error (url redacted): "@ + sanitize_spec(
            raw@,
            bot_token@,
        ),
{
    let mut e = owned("telegram ");
    e.append(op);
    e.append(" transport error (url redacted): ");
    let s = sanitize_telegram_error(raw, bot_token);
    e.append(s.as_str());
    e
}

/// Outcome of a `sendMessage` reply: a non-success status is an error, and
/// so is a JSON body whose `ok` is `false`.
pub fn send_message_outcome(
    status: u16,
    success: bool,
    body: &str,
    reply: Option<Json>,
    bot_token: &str,
) -> (r: Result<(), String>)
    ensures
        match r {
            Ok(()) => success && match reply {
                Some(v) => ok_flag(v) != Some(false),
                None => true,
            },
            Err(e) => if !success {
                e@ == http_error_spec("sendMessage"@, status, body@, bot_token@)
            } else {
                reply matches Some(v) && ok_flag(v) == Some(false) && e@
                    == "telegram sendMessage rejected: "@ + sanitize_spec(
                    reply_description(v),
                    bot_token@,
                )
            },
        },
{
    if !success {
        return Err(http_error("sendMessage", status, body, bot_token));
    }
    match reply {
        Some(v) => {
            if ok_member(&v) == Some(false) {
                let d = description(&v);
                let mut e = owned("telegram sendMessage rejected: ");
                let s = sanitize_telegram_error(d.as_str(), bot_token);
                e.append(s.as_str());
                return Err(e);
            }
            Ok(())
        },
        None => Ok(()),
    }
}

} // verus!
