//! Symbol resolution and request checks for live quotes.
//!
//! Tickers are fetched by the caller; this module decides which trade pair a
//! requested symbol reads and what row a symbol gets when it cannot be
//! fetched.
use vstd::prelude::*;
use crate::investment::model::ExchangeInfo;
use crate::investment::routes::{
    first_index_with_symbol, first_with_symbol, pair_view, resolve_trade_pair,
    resolve_trade_pair_spec,
};
use crate::num::{dec, u64_to_string};
use crate::text::{from_chars, owned, strip_or, strip_suffix_or, to_chars, trim, trim_chars};

verus! {

/// Soft cap protecting broker rate limits.
pub const MAX_QUOTE_SYMBOLS: usize = 30;

/// Budget for opening the Dzengi WebSocket (seconds).
pub const WS_CONNECT_TIMEOUT_SECS: u64 = 3;

/// Budget for one WebSocket request (seconds).
pub const WS_REQUEST_TIMEOUT_SECS: u64 = 3;

/// Wall clock of one quotes request; it stays under the MCP tool timeout.
pub const FETCH_QUOTES_DEADLINE_SECS: u64 = 20;

/// A requested symbol without one trailing `.`, trimmed.
pub open spec fn normalize_input_spec(symbol: Seq<char>) -> Seq<char> {
    trim(strip_or(symbol, seq!['.']))
}

pub fn normalize_input_symbol(symbol: &str) -> (r: String)
    ensures
        r@ == normalize_input_spec(symbol@),
{
    let v = to_chars(symbol);
    let s = strip_suffix_or(v.as_slice(), ".");
    assert(seq!['.'] == "."@) by {
        reveal_strlit(".");
    }
    let t = trim_chars(s.as_slice());
    from_chars(t.as_slice())
}

/// Trade pair a requested symbol is quoted from: a listed pair named exactly
/// as requested, else named as the normalized symbol, else the pair that
/// values the normalized symbol, else the one that values it as written.
pub open spec fn resolve_quote_pair_spec(syms: Seq<crate::investment::model::SymbolInfo>, symbol: Seq<char>) -> Option<
    Seq<char>,
> {
    let n = normalize_input_spec(symbol);
    if n.len() == 0 {
        None
    } else {
        match first_with_symbol(syms, symbol) {
            Some(s) => Some(s.symbol@),
            None => match first_with_symbol(syms, n) {
                Some(s) => Some(s.symbol@),
                None => match resolve_trade_pair_spec(syms, n) {
                    Some(p) => Some(p.0),
                    None => match resolve_trade_pair_spec(syms, symbol) {
                        Some(p) => Some(p.0),
                        None => None,
                    },
                },
            },
        }
    }
}

pub open spec fn opt_string_view(r: Option<String>) -> Option<Seq<char>> {
    match r {
        Some(s) => Some(s@),
        None => None,
    }
}

/// Resolve a user or book symbol to a Dzengi trade pair.
pub fn resolve_quote_pair(info: &ExchangeInfo, symbol: &str) -> (r: Option<String>)
    ensures
        opt_string_view(r) == resolve_quote_pair_spec(info.symbols@, symbol@),
{
    let normalized = normalize_input_symbol(symbol);
    if normalized.as_str().is_empty() {
        return None;
    }
    let syms = info.symbols.as_slice();
    let raw = to_chars(symbol);
    if let Some(i) = first_index_with_symbol(syms, raw.as_slice()) {
        return Some(syms[i].symbol.clone());
    }
    let nv = to_chars(normalized.as_str());
    if let Some(i) = first_index_with_symbol(syms, nv.as_slice()) {
        return Some(syms[i].symbol.clone());
    }
    match resolve_trade_pair(info, normalized.as_str()) {
        Some((pair, _)) => Some(pair),
        None => match resolve_trade_pair(info, symbol) {
            Some((pair, _)) => Some(pair),
            None => None,
        },
    }
}

pub open spec fn request_error(n: nat) -> Option<Seq<char>> {
    if n == 0 {
        Some("trading_quotes requires at least one symbol"@)
    } else if n > MAX_QUOTE_SYMBOLS {
        Some("trading_quotes accepts at most "@ + dec(MAX_QUOTE_SYMBOLS as nat) + " symbols (got "@
            + dec(n) + ")"@)
    } else {
        None
    }
}

/// Refuse an empty request or one over [`MAX_QUOTE_SYMBOLS`] symbols.
pub fn check_quote_request(count: usize) -> (r: Result<(), String>)
    ensures
        match r {
            Ok(()) => request_error(count as nat) is None,
            Err(e) => request_error(count as nat) == Some(e@),
        },
{
    if count == 0 {
        return Err(owned("trading_quotes requires at least one symbol"));
    }
    if count > MAX_QUOTE_SYMBOLS {
        let mut m = owned("trading_quotes accepts at most ");
        let a = u64_to_string(MAX_QUOTE_SYMBOLS as u64);
        m.append(a.as_str());
        m.append(" symbols (got ");
        let b = u64_to_string(count as u64);
        m.append(b.as_str());
        m.append(")");
        return Err(m);
    }
    Ok(())
}

/// What to do for one requested symbol.
pub enum QuoteStep {
    /// Emit an error row for `symbol`.
    Fail { symbol: String, error: String },
    /// Fetch the ticker of `trade_symbol` and report it under `symbol`.
    Fetch { symbol: String, trade_symbol: String },
}

pub open spec fn quote_step_spec(
    syms: Seq<crate::investment::model::SymbolInfo>,
    raw: Seq<char>,
    deadline_passed: bool,
) -> (Seq<char>, Result<Seq<char>, Seq<char>>) {
    let symbol = normalize_input_spec(raw);
    if deadline_passed {
        (
            if symbol.len() == 0 {
                raw
            } else {
                symbol
            },
            Err(
                "trading_quotes deadline ("@ + dec((FETCH_QUOTES_DEADLINE_SECS * 1000) as nat)
                    + "ms) exceeded; try fewer symbols"@,
            ),
        )
    } else if symbol.len() == 0 {
        (raw, Err("empty symbol"@))
    } else {
        match resolve_quote_pair_spec(syms, symbol) {
            None => (symbol, Err("no trading pair found for symbol "@ + raw)),
            Some(pair) => (symbol, Ok(pair)),
        }
    }
}

pub open spec fn quote_step_view(s: QuoteStep) -> (Seq<char>, Result<Seq<char>, Seq<char>>) {
    match s {
        QuoteStep::Fail { symbol, error } => (symbol@, Err(error@)),
        QuoteStep::Fetch { symbol, trade_symbol } => (symbol@, Ok(trade_symbol@)),
    }
}

/// Plan one symbol of a quotes request: past the deadline it gets a
/// deadline error, a blank symbol an `empty symbol` error, an unknown one a
/// `no trading pair` error; otherwise its ticker is fetched.
pub fn plan_quote(info: &ExchangeInfo, raw: &str, deadline_passed: bool) -> (r: QuoteStep)
    ensures
        quote_step_view(r) == quote_step_spec(info.symbols@, raw@, deadline_passed),
{
    let symbol = normalize_input_symbol(raw);
    if deadline_passed {
        let mut e = owned("trading_quotes deadline (");
        let ms = u64_to_string(FETCH_QUOTES_DEADLINE_SECS * 1000);
        e.append(ms.as_str());
        e.append("ms) exceeded; try fewer symbols");
        let s = if symbol.as_str().is_empty() {
            owned(raw)
        } else {
            symbol
        };
        return QuoteStep::Fail { symbol: s, error: e };
    }
    if symbol.as_str().is_empty() {
        return QuoteStep::Fail { symbol: owned(raw), error: owned("empty symbol") };
    }
    match resolve_quote_pair(info, symbol.as_str()) {
        None => {
            let mut e = owned("no trading pair found for symbol ");
            e.append(raw);
            QuoteStep::Fail { symbol, error: e }
        },
        Some(pair) => QuoteStep::Fetch { symbol, trade_symbol: pair },
    }
}


/// The alert evaluator's plan for one watched symbol: the symbol is kept as
/// given; without a trade pair it gets a `no trading pair for` error,
/// otherwise the pair's ticker is fetched.
pub open spec fn eval_quote_step_spec(
    syms: Seq<crate::investment::model::SymbolInfo>,
    raw: Seq<char>,
) -> (Seq<char>, Result<Seq<char>, Seq<char>>) {
    match resolve_quote_pair_spec(syms, raw) {
        None => (raw, Err("no trading pair for "@ + raw)),
        Some(pair) => (raw, Ok(pair)),
    }
}

/// Plan one symbol of the alert evaluator's quote refresh.
pub fn plan_eval_quote(info: &ExchangeInfo, raw: &str) -> (r: QuoteStep)
    ensures
        quote_step_view(r) == eval_quote_step_spec(info.symbols@, raw@),
{
    match resolve_quote_pair(info, raw) {
        None => {
            let mut e = owned("no trading pair for ");
            e.append(raw);
            QuoteStep::Fail { symbol: owned(raw), error: e }
        },
        Some(pair) => QuoteStep::Fetch { symbol: owned(raw), trade_symbol: pair },
    }
}

/// `QUOTES_TRANSPORT=ws` (any case) opts into WebSocket-first quotes; REST
/// otherwise (`raw` is the variable's value when set).
pub fn quotes_prefer_ws(raw: Option<&str>) -> (r: bool)
    ensures
        r == match raw {
            Some(v) => crate::text::eq_ignore_case(v@, "ws"@),
            None => false,
        },
{
    match raw {
        Some(v) => {
            let c = to_chars(v);
            crate::text::eq_ignore_ascii_case_lit(c.as_slice(), "ws")
        },
        None => false,
    }
}

/// A WebSocket session needs both the API key and the secret.
pub fn ws_credentials_present(api_key: &str, api_secret: &str) -> (r: bool)
    ensures
        r == (api_key@.len() > 0 && api_secret@.len() > 0),
{
    !api_key.is_empty() && !api_secret.is_empty()
}

/// The trade pair of a symbol, or the symbol itself when none resolves.
pub fn quote_pair_or_symbol(info: &ExchangeInfo, symbol: &str) -> (r: String)
    ensures
        r@ == match resolve_quote_pair_spec(info.symbols@, symbol@) {
            Some(p) => p,
            None => symbol@,
        },
{
    match resolve_quote_pair(info, symbol) {
        Some(p) => p,
        None => owned(symbol),
    }
}

} // verus!
