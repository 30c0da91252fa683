//! Price / portfolio watches: rule vocabulary, upsert validation, row
//! decoding, cooldown and fire gating, and the symbols an evaluation cycle
//! needs quotes for.
use vstd::prelude::*;
use crate::num::{dec_int, i64_to_string};
use crate::text::{
    concat2, eq_ignore_ascii_case, eq_ignore_case, lemma_lex_lt_asymmetric, lemma_lex_lt_total,
    lemma_lex_lt_transitive, lex_less, lex_lt, owned, str_eq, to_chars, trim, trim_chars,
};

verus! {

/// Default cooldown when an upsert omits `cooldown_secs`.
pub const DEFAULT_COOLDOWN_SECS: i64 = 3600;

/// Default number of outbox rows listed for agents.
pub const DEFAULT_ALERT_LIST_LIMIT: i64 = 50;

/// Upper bound on listed outbox rows.
pub const MAX_ALERT_LIST_LIMIT: i64 = 200;

/// Soft cap on symbols refreshed per evaluation cycle.
pub const MAX_EVAL_SYMBOLS: usize = 30;

/// Watch rule kinds.
#[derive(Clone, Copy, Debug, PartialEq, Eq, Structural)]
pub enum WatchRule {
    DayChangePct,
    MarkVsEntryPct,
    NavDayChangePct,
    CashBelow,
    WeightBookPctAbove,
}

/// How the observed value is held against the threshold.
#[derive(Clone, Copy, Debug, PartialEq, Eq, Structural)]
pub enum WatchCompare {
    Lte,
    Gte,
    AbsGte,
}

/// Where a fired alert goes.
#[derive(Clone, Copy, Debug, PartialEq, Eq, Structural)]
pub enum WatchChannel {
    Telegram,
    Mcp,
    Both,
}

pub open spec fn rule_name(r: WatchRule) -> Seq<char> {
    match r {
        WatchRule::DayChangePct => "day_change_pct"@,
        WatchRule::MarkVsEntryPct => "mark_vs_entry_pct"@,
        WatchRule::NavDayChangePct => "nav_day_change_pct"@,
        WatchRule::CashBelow => "cash_below"@,
        WatchRule::WeightBookPctAbove => "weight_book_pct_above"@,
    }
}

pub open spec fn parse_rule(s: Seq<char>) -> Option<WatchRule> {
    if s == "day_change_pct"@ {
        Some(WatchRule::DayChangePct)
    } else if s == "mark_vs_entry_pct"@ {
        Some(WatchRule::MarkVsEntryPct)
    } else if s == "nav_day_change_pct"@ {
        Some(WatchRule::NavDayChangePct)
    } else if s == "cash_below"@ {
        Some(WatchRule::CashBelow)
    } else if s == "weight_book_pct_above"@ {
        Some(WatchRule::WeightBookPctAbove)
    } else {
        None
    }
}

pub open spec fn compare_name(c: WatchCompare) -> Seq<char> {
    match c {
        WatchCompare::Lte => "lte"@,
        WatchCompare::Gte => "gte"@,
        WatchCompare::AbsGte => "abs_gte"@,
    }
}

pub open spec fn parse_compare(s: Seq<char>) -> Option<WatchCompare> {
    if s == "lte"@ {
        Some(WatchCompare::Lte)
    } else if s == "gte"@ {
        Some(WatchCompare::Gte)
    } else if s == "abs_gte"@ {
        Some(WatchCompare::AbsGte)
    } else {
        None
    }
}

pub open spec fn channel_name(c: WatchChannel) -> Seq<char> {
    match c {
        WatchChannel::Telegram => "telegram"@,
        WatchChannel::Mcp => "mcp"@,
        WatchChannel::Both => "both"@,
    }
}

pub open spec fn parse_channel(s: Seq<char>) -> Option<WatchChannel> {
    if s == "telegram"@ {
        Some(WatchChannel::Telegram)
    } else if s == "mcp"@ {
        Some(WatchChannel::Mcp)
    } else if s == "both"@ {
        Some(WatchChannel::Both)
    } else {
        None
    }
}

/// Symbol-level rules need a symbol; portfolio-level rules must have none.
pub open spec fn rule_requires_symbol(r: WatchRule) -> bool {
    !(r == WatchRule::NavDayChangePct || r == WatchRule::CashBelow)
}

impl WatchRule {
    pub fn as_str(self) -> (r: &'static str)
        ensures
            r@ == rule_name(self),
    {
        match self {
            WatchRule::DayChangePct => "day_change_pct",
            WatchRule::MarkVsEntryPct => "mark_vs_entry_pct",
            WatchRule::NavDayChangePct => "nav_day_change_pct",
            WatchRule::CashBelow => "cash_below",
            WatchRule::WeightBookPctAbove => "weight_book_pct_above",
        }
    }

    pub fn parse(s: &str) -> (r: Option<WatchRule>)
        ensures
            r == parse_rule(s@),
    {
        if str_eq(s, "day_change_pct") {
            Some(WatchRule::DayChangePct)
        } else if str_eq(s, "mark_vs_entry_pct") {
            Some(WatchRule::MarkVsEntryPct)
        } else if str_eq(s, "nav_day_change_pct") {
            Some(WatchRule::NavDayChangePct)
        } else if str_eq(s, "cash_below") {
            Some(WatchRule::CashBelow)
        } else if str_eq(s, "weight_book_pct_above") {
            Some(WatchRule::WeightBookPctAbove)
        } else {
            None
        }
    }

    /// Portfolio-level rules must have `symbol = null`; others require one.
    pub fn requires_symbol(self) -> (r: bool)
        ensures
            r == rule_requires_symbol(self),
    {
        !matches!(self, WatchRule::NavDayChangePct | WatchRule::CashBelow)
    }
}

impl WatchCompare {
    pub fn as_str(self) -> (r: &'static str)
        ensures
            r@ == compare_name(self),
    {
        match self {
            WatchCompare::Lte => "lte",
            WatchCompare::Gte => "gte",
            WatchCompare::AbsGte => "abs_gte",
        }
    }

    pub fn parse(s: &str) -> (r: Option<WatchCompare>)
        ensures
            r == parse_compare(s@),
    {
        if str_eq(s, "lte") {
            Some(WatchCompare::Lte)
        } else if str_eq(s, "gte") {
            Some(WatchCompare::Gte)
        } else if str_eq(s, "abs_gte") {
            Some(WatchCompare::AbsGte)
        } else {
            None
        }
    }
}

impl WatchChannel {
    pub fn as_str(self) -> (r: &'static str)
        ensures
            r@ == channel_name(self),
    {
        match self {
            WatchChannel::Telegram => "telegram",
            WatchChannel::Mcp => "mcp",
            WatchChannel::Both => "both",
        }
    }

    pub fn parse(s: &str) -> (r: Option<WatchChannel>)
        ensures
            r == parse_channel(s@),
    {
        if str_eq(s, "telegram") {
            Some(WatchChannel::Telegram)
        } else if str_eq(s, "mcp") {
            Some(WatchChannel::Mcp)
        } else if str_eq(s, "both") {
            Some(WatchChannel::Both)
        } else {
            None
        }
    }
}

/// A stored rule name reads back as the rule that wrote it.
pub proof fn lemma_rule_round_trip(r: WatchRule)
    ensures
        parse_rule(rule_name(r)) == Some(r),
{
    reveal_strlit("day_change_pct");
    reveal_strlit("mark_vs_entry_pct");
    reveal_strlit("nav_day_change_pct");
    reveal_strlit("cash_below");
    reveal_strlit("weight_book_pct_above");
    assert("day_change_pct"@.len() == 14);
    assert("mark_vs_entry_pct"@.len() == 17);
    assert("nav_day_change_pct"@.len() == 18);
    assert("cash_below"@.len() == 10);
    assert("weight_book_pct_above"@.len() == 21);
}

/// A stored comparison name reads back as the comparison that wrote it.
pub proof fn lemma_compare_round_trip(c: WatchCompare)
    ensures
        parse_compare(compare_name(c)) == Some(c),
{
    reveal_strlit("lte");
    reveal_strlit("gte");
    reveal_strlit("abs_gte");
    assert("lte"@[0] != "gte"@[0]);
    assert("abs_gte"@.len() == 7);
    assert("lte"@.len() == 3);
    assert("gte"@.len() == 3);
}

/// A stored channel name reads back as the channel that wrote it.
pub proof fn lemma_channel_round_trip(c: WatchChannel)
    ensures
        parse_channel(channel_name(c)) == Some(c),
{
    reveal_strlit("telegram");
    reveal_strlit("mcp");
    reveal_strlit("both");
    assert("telegram"@.len() == 8);
    assert("mcp"@.len() == 3);
    assert("both"@.len() == 4);
}

/// Distinct rules (comparisons, channels) are stored under distinct names.
pub proof fn lemma_names_distinct(
    r1: WatchRule,
    r2: WatchRule,
    c1: WatchCompare,
    c2: WatchCompare,
    h1: WatchChannel,
    h2: WatchChannel,
)
    ensures
        rule_name(r1) == rule_name(r2) ==> r1 == r2,
        compare_name(c1) == compare_name(c2) ==> c1 == c2,
        channel_name(h1) == channel_name(h2) ==> h1 == h2,
{
    lemma_rule_round_trip(r1);
    lemma_rule_round_trip(r2);
    lemma_compare_round_trip(c1);
    lemma_compare_round_trip(c2);
    lemma_channel_round_trip(h1);
    lemma_channel_round_trip(h2);
}

// ---------------------------------------------------------------------------
// Upsert validation and normalisation
// ---------------------------------------------------------------------------

/// The symbol an upsert stores: trimmed, and absent when blank.
pub open spec fn clean_symbol(symbol: Option<Seq<char>>) -> Option<Seq<char>> {
    match symbol {
        Some(s) => if trim(s).len() > 0 {
            Some(trim(s))
        } else {
            None
        },
        None => None,
    }
}

pub open spec fn opt_str_view(s: Option<&str>) -> Option<Seq<char>> {
    match s {
        Some(x) => Some(x@),
        None => None,
    }
}

pub open spec fn opt_string_view(s: Option<String>) -> Option<Seq<char>> {
    match s {
        Some(x) => Some(x@),
        None => None,
    }
}

pub open spec fn result_error(r: Result<(), String>) -> Option<Seq<char>> {
    match r {
        Ok(()) => None,
        Err(e) => Some(e@),
    }
}

/// Why an upsert is refused, if it is: a non-finite threshold, a missing
/// symbol on a symbol-level rule, a symbol on a portfolio-level rule, or a
/// negative cooldown, checked in that order.
pub open spec fn upsert_error(
    rule: WatchRule,
    symbol: Option<Seq<char>>,
    threshold_finite: bool,
    cooldown_secs: Option<i64>,
) -> Option<Seq<char>> {
    if !threshold_finite {
        Some("threshold must be finite"@)
    } else if rule_requires_symbol(rule) && clean_symbol(symbol) is None {
        Some("rule "@ + rule_name(rule) + " requires a non-empty symbol"@)
    } else if !rule_requires_symbol(rule) && clean_symbol(symbol) is Some {
        Some("rule "@ + rule_name(rule) + " is portfolio-level; symbol must be null"@)
    } else if cooldown_secs is Some && cooldown_secs->0 < 0 {
        Some("cooldown_secs must be >= 0"@)
    } else {
        None
    }
}

fn clean_symbol_exec(symbol: Option<&str>) -> (r: Option<String>)
    ensures
        opt_string_view(r) == clean_symbol(opt_str_view(symbol)),
{
    match symbol {
        Some(s) => {
            let v = to_chars(s);
            let t = trim_chars(v.as_slice());
            if t.len() > 0 {
                Some(crate::text::from_chars(t.as_slice()))
            } else {
                None
            }
        },
        None => None,
    }
}

/// Check the fields of `trading_watches_upsert`. The threshold is handed in
/// as whether it is finite.
pub fn validate_upsert(
    rule: WatchRule,
    symbol: Option<&str>,
    threshold_finite: bool,
    cooldown_secs: Option<i64>,
) -> (r: Result<(), String>)
    ensures
        result_error(r) == upsert_error(rule, opt_str_view(symbol), threshold_finite, cooldown_secs),
{
    if !threshold_finite {
        return Err(owned("threshold must be finite"));
    }
    let cleaned = clean_symbol_exec(symbol);
    if rule.requires_symbol() {
        if cleaned.is_none() {
            let mut m = owned("rule ");
            m.append(rule.as_str());
            m.append(" requires a non-empty symbol");
            return Err(m);
        }
    } else if cleaned.is_some() {
        let mut m = owned("rule ");
        m.append(rule.as_str());
        m.append(" is portfolio-level; symbol must be null");
        return Err(m);
    }
    if let Some(cd) = cooldown_secs {
        if cd < 0 {
            return Err(owned("cooldown_secs must be >= 0"));
        }
    }
    Ok(())
}

/// Column values an accepted upsert writes.
pub struct WatchFields {
    pub symbol: Option<String>,
    pub rule: String,
    pub compare: String,
    pub channel: String,
    pub cooldown_secs: i64,
    pub enabled: i64,
}

/// Validate an upsert and derive the stored columns: trimmed symbol (absent
/// when blank), rule / comparison / channel names, cooldown defaulting to
/// [`DEFAULT_COOLDOWN_SECS`], and `enabled` (default true) as 1 / 0.
pub fn upsert_fields(
    symbol: Option<&str>,
    rule: WatchRule,
    compare: WatchCompare,
    channel: WatchChannel,
    threshold_finite: bool,
    cooldown_secs: Option<i64>,
    enabled: Option<bool>,
) -> (r: Result<WatchFields, String>)
    ensures
        match r {
            Ok(f) => upsert_error(rule, opt_str_view(symbol), threshold_finite, cooldown_secs) is None
                && opt_string_view(f.symbol) == clean_symbol(opt_str_view(symbol)) && f.rule@
                == rule_name(rule) && f.compare@ == compare_name(compare) && f.channel@
                == channel_name(channel) && f.cooldown_secs == (match cooldown_secs {
                Some(c) => c,
                None => DEFAULT_COOLDOWN_SECS,
            }) && f.enabled == (if (match enabled {
                Some(e) => e,
                None => true,
            }) {
                1i64
            } else {
                0i64
            }),
            Err(e) => upsert_error(rule, opt_str_view(symbol), threshold_finite, cooldown_secs)
                == Some(e@),
        },
{
    match validate_upsert(rule, symbol, threshold_finite, cooldown_secs) {
        Err(e) => Err(e),
        Ok(()) => {
            let s = clean_symbol_exec(symbol);
            let cd = match cooldown_secs {
                Some(c) => c,
                None => DEFAULT_COOLDOWN_SECS,
            };
            let en = match enabled {
                Some(e) => e,
                None => true,
            };
            Ok(
                WatchFields {
                    symbol: s,
                    rule: owned(rule.as_str()),
                    compare: owned(compare.as_str()),
                    channel: owned(channel.as_str()),
                    cooldown_secs: cd,
                    enabled: if en {
                        1
                    } else {
                        0
                    },
                },
            )
        },
    }
}

/// Decoded enum columns of a stored watch row.
pub open spec fn decode_watch_spec(rule: Seq<char>, compare: Seq<char>, channel: Seq<char>) -> Result<
    (WatchRule, WatchCompare, WatchChannel),
    Seq<char>,
> {
    match parse_rule(rule) {
        None => Err("unknown watch rule: "@ + rule),
        Some(r) => match parse_compare(compare) {
            None => Err("unknown compare: "@ + compare),
            Some(c) => match parse_channel(channel) {
                None => Err("unknown channel: "@ + channel),
                Some(h) => Ok((r, c, h)),
            },
        },
    }
}

/// Decode the rule, comparison and channel columns of a stored watch; the
/// first unknown name is reported.
pub fn decode_watch_columns(rule: &str, compare: &str, channel: &str) -> (r: Result<
    (WatchRule, WatchCompare, WatchChannel),
    String,
>)
    ensures
        match r {
            Ok(t) => decode_watch_spec(rule@, compare@, channel@) == Ok::<
                (WatchRule, WatchCompare, WatchChannel),
                Seq<char>,
            >(t),
            Err(e) => decode_watch_spec(rule@, compare@, channel@) == Err::<
                (WatchRule, WatchCompare, WatchChannel),
                Seq<char>,
            >(e@),
        },
{
    let r = match WatchRule::parse(rule) {
        Some(r) => r,
        None => {
            return Err(concat2("unknown watch rule: ", rule));
        },
    };
    let c = match WatchCompare::parse(compare) {
        Some(c) => c,
        None => {
            return Err(concat2("unknown compare: ", compare));
        },
    };
    let h = match WatchChannel::parse(channel) {
        Some(h) => h,
        None => {
            return Err(concat2("unknown channel: ", channel));
        },
    };
    Ok((r, c, h))
}

// ---------------------------------------------------------------------------
// Cooldown and fire gating
// ---------------------------------------------------------------------------

/// Whole seconds of a millisecond span, rounded toward zero.
pub open spec fn whole_secs(ms: int) -> int {
    if ms >= 0 {
        ms / 1000
    } else {
        -((-ms) / 1000)
    }
}

/// The cooldown has run out: never fired, or at least `cooldown_secs` whole
/// seconds since the last fire (instants in Unix milliseconds).
pub open spec fn cooldown_elapsed_spec(last_fired_ms: Option<i64>, cooldown_secs: i64, now_ms: i64) -> bool {
    match last_fired_ms {
        None => true,
        Some(last) => whole_secs(now_ms - last) >= cooldown_secs,
    }
}

pub fn cooldown_elapsed(last_fired_ms: Option<i64>, cooldown_secs: i64, now_ms: i64) -> (r: bool)
    ensures
        r == cooldown_elapsed_spec(last_fired_ms, cooldown_secs, now_ms),
{
    match last_fired_ms {
        None => true,
        Some(last) => {
            let d: i128 = now_ms as i128 - last as i128;
            let secs: i128 = if d >= 0 {
                d / 1000
            } else {
                -((-d) / 1000)
            };
            secs >= cooldown_secs as i128
        },
    }
}

/// Whether a watch may be evaluated for firing now: it is enabled and its
/// cooldown has run out. A disabled watch never fires.
pub fn may_fire(enabled: bool, last_fired_ms: Option<i64>, cooldown_secs: i64, now_ms: i64) -> (r:
    bool)
    ensures
        r == (enabled && cooldown_elapsed_spec(last_fired_ms, cooldown_secs, now_ms)),
        !enabled ==> !r,
{
    enabled && cooldown_elapsed(last_fired_ms, cooldown_secs, now_ms)
}

/// Outbox event id `evt_{watch_id}_{millis}`.
pub fn new_event_id(watch_id: i64, ts_ms: i64) -> (r: String)
    ensures
        r@ == "evt_"@ + dec_int(watch_id as int) + "_"@ + dec_int(ts_ms as int),
{
    let mut r = owned("evt_");
    let a = i64_to_string(watch_id);
    r.append(a.as_str());
    r.append("_");
    let b = i64_to_string(ts_ms);
    r.append(b.as_str());
    r
}

/// Row limit for `trading_alerts_list`: 50 by default, clamped to 1..=200.
pub fn alert_list_limit(limit: Option<i64>) -> (r: i64)
    ensures
        r == (match limit {
            None => DEFAULT_ALERT_LIST_LIMIT,
            Some(l) => if l < 1 {
                1
            } else if l > MAX_ALERT_LIST_LIMIT {
                MAX_ALERT_LIST_LIMIT
            } else {
                l
            },
        }),
        1 <= r <= MAX_ALERT_LIST_LIMIT,
{
    match limit {
        None => DEFAULT_ALERT_LIST_LIMIT,
        Some(l) => if l < 1 {
            1
        } else if l > MAX_ALERT_LIST_LIMIT {
            MAX_ALERT_LIST_LIMIT
        } else {
            l
        },
    }
}

/// Rules that read the REST book (marks vs entry, weights, cash, NAV).
pub open spec fn rule_needs_book(r: WatchRule) -> bool {
    r == WatchRule::MarkVsEntryPct || r == WatchRule::WeightBookPctAbove || r
        == WatchRule::CashBelow || r == WatchRule::NavDayChangePct
}

/// Only the day-change rule, which reads quotes alone, does without the REST
/// book: marks vs entry, book weights, cash and the NAV day change all read
/// it.
pub proof fn lemma_only_day_change_skips_book(r: WatchRule)
    ensures
        rule_needs_book(r) <==> r != WatchRule::DayChangePct,
        rule_needs_book(WatchRule::MarkVsEntryPct),
        rule_needs_book(WatchRule::WeightBookPctAbove),
        rule_needs_book(WatchRule::CashBelow),
        rule_needs_book(WatchRule::NavDayChangePct),
        !rule_needs_book(WatchRule::DayChangePct),
{
}

pub fn watch_needs_book(rule: WatchRule) -> (r: bool)
    ensures
        r == rule_needs_book(rule),
{
    matches!(
        rule,
        WatchRule::MarkVsEntryPct | WatchRule::WeightBookPctAbove | WatchRule::CashBelow
            | WatchRule::NavDayChangePct
    )
}

// ---------------------------------------------------------------------------
// Observation lookup
// ---------------------------------------------------------------------------

pub open spec fn key_matches(key: Seq<char>, symbol: Seq<char>, ignore_case: bool) -> bool {
    if ignore_case {
        eq_ignore_case(key, symbol)
    } else {
        key == symbol
    }
}

/// Index of the first key that matches `symbol`.
pub open spec fn first_key(keys: Seq<String>, symbol: Seq<char>, ignore_case: bool) -> Option<int>
    decreases keys.len(),
{
    if keys.len() == 0 {
        None
    } else {
        match first_key(keys.drop_last(), symbol, ignore_case) {
            Some(i) => Some(i),
            None => if key_matches(keys.last()@, symbol, ignore_case) {
                Some(keys.len() - 1)
            } else {
                None
            },
        }
    }
}

proof fn lemma_first_key_prefix(keys: Seq<String>, symbol: Seq<char>, ignore_case: bool, k: int)
    requires
        0 <= k <= keys.len(),
        first_key(keys.subrange(0, k), symbol, ignore_case) is Some,
    ensures
        first_key(keys, symbol, ignore_case) == first_key(keys.subrange(0, k), symbol, ignore_case),
    decreases keys.len() - k,
{
    if k < keys.len() {
        assert(keys.subrange(0, k + 1).drop_last() =~= keys.subrange(0, k));
        lemma_first_key_prefix(keys, symbol, ignore_case, k + 1);
    } else {
        assert(keys.subrange(0, k) =~= keys);
    }
}

fn first_key_index(keys: &[String], symbol: &[char], ignore_case: bool) -> (r: Option<usize>)
    ensures
        match r {
            Some(i) => first_key(keys@, symbol@, ignore_case) == Some(i as int),
            None => first_key(keys@, symbol@, ignore_case) is None,
        },
{
    let mut i: usize = 0;
    while i < keys.len()
        invariant
            i <= keys@.len(),
            first_key(keys@.subrange(0, i as int), symbol@, ignore_case) is None,
        decreases keys@.len() - i,
    {
        assert(keys@.subrange(0, i + 1).drop_last() =~= keys@.subrange(0, i as int));
        let k = to_chars(keys[i].as_str());
        let hit = if ignore_case {
            eq_ignore_ascii_case(k.as_slice(), symbol)
        } else {
            crate::text::chars_eq(k.as_slice(), symbol)
        };
        if hit {
            proof {
                lemma_first_key_prefix(keys@, symbol@, ignore_case, i + 1);
            }
            return Some(i);
        }
        i = i + 1;
    }
    assert(keys@.subrange(0, keys@.len() as int) =~= keys@);
    None
}

/// Which observation a symbol reads: the exact key, else the first key equal
/// to it ignoring ASCII case (book vs quote casing).
pub open spec fn observation_index(keys: Seq<String>, symbol: Seq<char>) -> Option<int> {
    match first_key(keys, symbol, false) {
        Some(i) => Some(i),
        None => first_key(keys, symbol, true),
    }
}

pub fn find_observation(keys: &[String], symbol: &str) -> (r: Option<usize>)
    ensures
        match r {
            Some(i) => observation_index(keys@, symbol@) == Some(i as int) && i < keys@.len(),
            None => observation_index(keys@, symbol@) is None,
        },
{
    let s = to_chars(symbol);
    match first_key_index(keys, s.as_slice(), false) {
        Some(i) => {
            proof {
                lemma_first_key_bound(keys@, symbol@, false);
            }
            Some(i)
        },
        None => {
            let r = first_key_index(keys, s.as_slice(), true);
            proof {
                lemma_first_key_bound(keys@, symbol@, true);
            }
            r
        },
    }
}

proof fn lemma_first_key_bound(keys: Seq<String>, symbol: Seq<char>, ignore_case: bool)
    ensures
        match first_key(keys, symbol, ignore_case) {
            Some(i) => 0 <= i < keys.len(),
            None => true,
        },
    decreases keys.len(),
{
    if keys.len() > 0 {
        lemma_first_key_bound(keys.drop_last(), symbol, ignore_case);
    }
}

// ---------------------------------------------------------------------------
// Symbols that need live quotes
// ---------------------------------------------------------------------------

/// Symbols of `day_change_pct` watches (the only rule fed by live tickers).
pub open spec fn quote_symbol(w: (WatchRule, Option<String>)) -> Option<Seq<char>> {
    if w.0 == WatchRule::DayChangePct {
        match w.1 {
            Some(s) => Some(s@),
            None => None,
        }
    } else {
        None
    }
}

/// Some watch among the first `n` wants a quote for `s`.
pub open spec fn wanted_before(watches: Seq<(WatchRule, Option<String>)>, n: int, s: Seq<char>) -> bool {
    exists|i: int| 0 <= i < n && quote_symbol(#[trigger] watches[i]) == Some(s)
}

pub open spec fn wants_quote(watches: Seq<(WatchRule, Option<String>)>, s: Seq<char>) -> bool {
    wanted_before(watches, watches.len() as int, s)
}

/// `x` is the text of some element of `v`.
pub open spec fn has_name(v: Seq<String>, x: Seq<char>) -> bool {
    exists|i: int| 0 <= i < v.len() && v[i]@ == x
}

pub open spec fn strictly_sorted(v: Seq<String>) -> bool {
    forall|i: int, j: int| 0 <= i < j < v.len() ==> lex_lt(#[trigger] v[i]@, #[trigger] v[j]@)
}

/// The symbols that need quotes this cycle: distinct, in ascending order, and
/// the first [`MAX_EVAL_SYMBOLS`] of them when there are more.
pub open spec fn quote_symbols_spec(watches: Seq<(WatchRule, Option<String>)>, r: Seq<String>) -> bool {
    &&& strictly_sorted(r)
    &&& r.len() <= MAX_EVAL_SYMBOLS
    &&& forall|i: int| 0 <= i < r.len() ==> wants_quote(watches, #[trigger] r[i]@)
    &&& forall|s: Seq<char>|
        #[trigger] wants_quote(watches, s) && !has_name(r, s) ==> r.len() == MAX_EVAL_SYMBOLS
            && forall|i: int| 0 <= i < r.len() ==> lex_lt(#[trigger] r[i]@, s)
}

fn insert_sorted(out: &mut Vec<String>, s: String)
    requires
        strictly_sorted(old(out)@),
    ensures
        strictly_sorted(final(out)@),
        forall|x: Seq<char>| #[trigger]
            has_name(final(out)@, x) <==> (x == s@ || has_name(old(out)@, x)),
        final(out)@.len() <= old(out)@.len() + 1,
{
    let sv = to_chars(s.as_str());
    let mut j: usize = 0;
    while j < out.len()
        invariant
            j <= out@.len(),
            out@ == old(out)@,
            forall|i: int| 0 <= i < j ==> lex_lt(#[trigger] out@[i]@, s@),
            sv@ == s@,
        ensures
            j <= out@.len(),
            out@ == old(out)@,
            forall|i: int| 0 <= i < j ==> lex_lt(#[trigger] out@[i]@, s@),
            j < out@.len() ==> !lex_lt(out@[j as int]@, s@),
        decreases out@.len() - j,
    {
        let o = to_chars(out[j].as_str());
        assert(o@ == out@[j as int]@);
        if !lex_less(o.as_slice(), sv.as_slice()) {
            break;
        }
        j = j + 1;
    }
    let ghost before = out@;
    if j < out.len() {
        let o = to_chars(out[j].as_str());
        if crate::text::chars_eq(o.as_slice(), sv.as_slice()) {
            proof {
                assert forall|x: Seq<char>| #[trigger]
                    has_name(out@, x) <==> (x == s@ || has_name(before, x)) by {
                    if x == s@ {
                        assert(before[j as int]@ == x);
                    }
                }
            }
            return;
        }
        proof {
            lemma_lex_lt_total(before[j as int]@, s@);
            assert forall|k: int| j <= k < before.len() implies lex_lt(s@, #[trigger] before[k]@) by {
                if k > j {
                    lemma_lex_lt_transitive(s@, before[j as int]@, before[k]@);
                }
            }
        }
    }
    out.insert(j, s);
    proof {
        let after = out@;
        assert(after == before.insert(j as int, s));
        assert forall|a: int, b: int| 0 <= a < b < after.len() implies lex_lt(
            #[trigger] after[a]@,
            #[trigger] after[b]@,
        ) by {
            if b < j {
            } else if b == j {
            } else if a < j {
                lemma_lex_lt_transitive(after[a]@, s@, after[b]@);
            } else if a == j {
            } else {
            }
        }
        assert forall|x: Seq<char>| #[trigger]
            has_name(after, x) <==> (x == s@ || has_name(before, x)) by {
            if has_name(after, x) {
                let i = choose|i: int| 0 <= i < after.len() && after[i]@ == x;
                if i < j {
                    assert(before[i]@ == x);
                } else if i > j {
                    assert(before[i - 1]@ == x);
                }
            }
            if x == s@ {
                assert(after[j as int]@ == x);
            } else if has_name(before, x) {
                let i = choose|i: int| 0 <= i < before.len() && before[i]@ == x;
                if i < j {
                    assert(after[i]@ == x);
                } else {
                    assert(after[i + 1]@ == x);
                }
            }
        }
    }
}

/// Symbols that need live tickers: those of `day_change_pct` watches,
/// deduplicated, sorted ascending, at most [`MAX_EVAL_SYMBOLS`].
pub fn symbols_needing_quotes(watches: &[(WatchRule, Option<String>)]) -> (r: Vec<String>)
    ensures
        quote_symbols_spec(watches@, r@),
{
    let mut out: Vec<String> = Vec::new();
    let mut i: usize = 0;
    while i < watches.len()
        invariant
            i <= watches@.len(),
            strictly_sorted(out@),
            forall|k: int| 0 <= k < out@.len() ==> wants_quote(watches@, #[trigger] out@[k]@),
            forall|s: Seq<char>| #[trigger] wanted_before(watches@, i as int, s) ==> has_name(out@, s),
        decreases watches@.len() - i,
    {
        let ghost before = out@;
        if let WatchRule::DayChangePct = watches[i].0 {
            if let Some(sym) = &watches[i].1 {
                insert_sorted(&mut out, sym.clone());
                proof {
                    assert(quote_symbol(watches@[i as int]) == Some(sym@));
                    assert forall|k: int| 0 <= k < out@.len() implies wants_quote(
                        watches@,
                        #[trigger] out@[k]@,
                    ) by {
                        let x = out@[k]@;
                        assert(has_name(out@, x));
                        if x == sym@ {
                            assert(quote_symbol(watches@[i as int]) == Some(x));
                        } else {
                            let m = choose|m: int| 0 <= m < before.len() && before[m]@ == x;
                            assert(wants_quote(watches@, before[m]@));
                        }
                    }
                }
            }
        }
        proof {
            assert forall|s: Seq<char>| #[trigger] wanted_before(watches@, i + 1, s) implies has_name(
                out@,
                s,
            ) by {
                let m = choose|m: int| 0 <= m < i + 1 && quote_symbol(#[trigger] watches@[m]) == Some(
                    s,
                );
                if m < i {
                    assert(wanted_before(watches@, i as int, s));
                    assert(has_name(before, s));
                }
            }
        }
        i = i + 1;
    }
    let ghost full = out@;
    out.truncate(MAX_EVAL_SYMBOLS);
    proof {
        let r = out@;
        assert forall|s: Seq<char>| #[trigger]
            wants_quote(watches@, s) && !has_name(r, s) implies r.len() == MAX_EVAL_SYMBOLS && forall|
                k: int,
            |
                0 <= k < r.len() ==> lex_lt(#[trigger] r[k]@, s) by {
            assert(has_name(full, s));
            let p = choose|p: int| 0 <= p < full.len() && full[p]@ == s;
            if full.len() <= MAX_EVAL_SYMBOLS {
                assert(r[p]@ == s);
            }
            if p < MAX_EVAL_SYMBOLS {
                assert(r[p]@ == s);
            }
            assert forall|k: int| 0 <= k < r.len() implies lex_lt(#[trigger] r[k]@, s) by {
                assert(full[k] == r[k]);
            }
        }
    }
    out
}

} // verus!
