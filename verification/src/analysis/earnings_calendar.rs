//! Earnings (report-date) calendar: Finnhub ticker mapping, the report
//! window, and which book names get a row.
use vstd::prelude::*;
use crate::analysis::selection::{find_holding, first_matching_holding, HoldingRef};
use crate::investment::routes::{lookup_symbol, lookup_symbol_spec, AssetClass};
use crate::text::{contains_char, has_prefix, owned, to_chars};

verus! {

/// Default upcoming window (days).
pub const DEFAULT_HORIZON_DAYS: i64 = 14;

/// Default lookback for recently reported names (days).
pub const DEFAULT_INCLUDE_PAST_DAYS: i64 = 1;

/// Milliseconds per day.
pub const DAY_MS: i64 = 86_400_000;

/// Grace before "now" for an upcoming report (12 hours, in ms).
pub const UPCOMING_GRACE_MS: i64 = 43_200_000;

/// Largest day count a window accepts (whole days of a `TimeDelta`).
pub const MAX_WINDOW_DAYS: i64 = 106_751_991_167;

/// Query of the earnings calendar.
pub struct EarningsCalendarQuery {
    /// Optional symbol filter; none or empty means the equity names of the book.
    pub symbols: Option<Vec<String>>,
    /// Upcoming reports within this many days.
    pub horizon_days: i64,
    /// Recently reported within this many days.
    pub include_past_days: i64,
}

impl Default for EarningsCalendarQuery {
    fn default() -> (r: Self)
        ensures
            r.symbols is None,
            r.horizon_days == DEFAULT_HORIZON_DAYS,
            r.include_past_days == DEFAULT_INCLUDE_PAST_DAYS,
    {
        EarningsCalendarQuery {
            symbols: None,
            horizon_days: DEFAULT_HORIZON_DAYS,
            include_past_days: DEFAULT_INCLUDE_PAST_DAYS,
        }
    }
}

pub open spec fn is_ascii_digit(c: char) -> bool {
    '0' <= c && c <= '9'
}

/// A lookup key Finnhub cannot resolve as an equity: an index (`^…`), a
/// future (`…=F`) or a crypto id (`…-USD` with digits).
pub open spec fn non_equity_key(key: Seq<char>) -> bool {
    has_prefix(key, seq!['^']) || key.contains('=') || (key.contains('-') && exists|i: int|
        0 <= i < key.len() && is_ascii_digit(#[trigger] key[i]))
}

pub open spec fn finnhub_symbol_spec(broker_symbol: Seq<char>) -> Result<Seq<char>, Seq<char>> {
    let key = lookup_symbol_spec(broker_symbol);
    if non_equity_key(key) {
        Err(
            "finnhub earnings map for "@ + broker_symbol + ": key "@ + key
                + " is not a Finnhub equity ticker (wrong instrument or non-equity)"@,
        )
    } else if key.len() == 0 {
        Err("finnhub earnings map for "@ + broker_symbol + ": empty lookup key"@)
    } else {
        Ok(key)
    }
}

pub open spec fn result_view(r: Result<String, String>) -> Result<Seq<char>, Seq<char>> {
    match r {
        Ok(s) => Ok(s@),
        Err(e) => Err(e@),
    }
}

fn has_ascii_digit(a: &[char]) -> (r: bool)
    ensures
        r == exists|i: int| 0 <= i < a@.len() && is_ascii_digit(#[trigger] a@[i]),
{
    let mut i: usize = 0;
    while i < a.len()
        invariant
            i <= a@.len(),
            forall|k: int| 0 <= k < i ==> !is_ascii_digit(#[trigger] a@[k]),
        decreases a@.len() - i,
    {
        if '0' <= a[i] && a[i] <= '9' {
            return true;
        }
        i = i + 1;
    }
    false
}

/// Map a broker symbol to a Finnhub earnings ticker (same base map as the
/// technicals), refusing index / future / crypto keys and empty keys.
pub fn finnhub_earnings_symbol(broker_symbol: &str) -> (r: Result<String, String>)
    ensures
        result_view(r) == finnhub_symbol_spec(broker_symbol@),
{
    let key = lookup_symbol(broker_symbol);
    let k = to_chars(key.as_str());
    let k = k.as_slice();
    let caret = k.len() > 0 && k[0] == '^';
    proof {
        if has_prefix(k@, seq!['^']) {
            assert(k@.subrange(0, 1)[0] == k@[0]);
        }
        if caret {
            assert(k@.subrange(0, 1) =~= seq!['^']);
        }
    }
    if caret || contains_char(k, '=') || (contains_char(k, '-') && has_ascii_digit(k)) {
        let mut e = owned("finnhub earnings map for ");
        e.append(broker_symbol);
        e.append(": key ");
        e.append(key.as_str());
        e.append(" is not a Finnhub equity ticker (wrong instrument or non-equity)");
        return Err(e);
    }
    if k.len() == 0 {
        let mut e = owned("finnhub earnings map for ");
        e.append(broker_symbol);
        e.append(": empty lookup key");
        return Err(e);
    }
    Ok(key)
}

pub open spec fn clamp0(d: i64) -> int {
    if d < 0 {
        0
    } else {
        d as int
    }
}

/// A report date is in the window: the next report from 12 hours ago up to
/// `horizon_days` ahead, or the last report within `include_past_days`
/// before `as_of` (instants in Unix milliseconds).
pub open spec fn in_window_spec(
    next_report_ms: Option<i64>,
    last_report_ms: Option<i64>,
    horizon_days: i64,
    include_past_days: i64,
    as_of_ms: i64,
) -> bool {
    let upcoming = match next_report_ms {
        Some(t) => as_of_ms - UPCOMING_GRACE_MS <= t && t <= as_of_ms + clamp0(horizon_days)
            * DAY_MS,
        None => false,
    };
    let recent = match last_report_ms {
        Some(t) => t <= as_of_ms && t >= as_of_ms - clamp0(include_past_days) * DAY_MS,
        None => false,
    };
    upcoming || recent
}

pub fn in_window(
    next_report_ms: Option<i64>,
    last_report_ms: Option<i64>,
    horizon_days: i64,
    include_past_days: i64,
    as_of_ms: i64,
) -> (r: bool)
    requires
        horizon_days <= MAX_WINDOW_DAYS,
        include_past_days <= MAX_WINDOW_DAYS,
    ensures
        r == in_window_spec(next_report_ms, last_report_ms, horizon_days, include_past_days, as_of_ms),
{
    let h: i128 = if horizon_days < 0 {
        0
    } else {
        horizon_days as i128
    };
    let p: i128 = if include_past_days < 0 {
        0
    } else {
        include_past_days as i128
    };
    let now = as_of_ms as i128;
    let upcoming = match next_report_ms {
        Some(t) => {
            let t = t as i128;
            now - UPCOMING_GRACE_MS as i128 <= t && t <= now + h * DAY_MS as i128
        },
        None => false,
    };
    let recent = match last_report_ms {
        Some(t) => {
            let t = t as i128;
            t <= now && t >= now - p * DAY_MS as i128
        },
        None => false,
    };
    upcoming || recent
}

/// A name the calendar looks up; `force` rows are always emitted.
pub struct Target {
    pub symbol: String,
    pub name: Option<String>,
    pub force: bool,
}

pub open spec fn opt_view(s: Option<String>) -> Option<Seq<char>> {
    match s {
        Some(x) => Some(x@),
        None => None,
    }
}

/// Book scan targets: the equity rows, in book order.
pub open spec fn equity_targets_spec(holdings: Seq<HoldingRef>) -> Seq<(Seq<char>, Option<Seq<char>>)>
    decreases holdings.len(),
{
    if holdings.len() == 0 {
        Seq::empty()
    } else {
        let rest = equity_targets_spec(holdings.drop_last());
        let h = holdings.last();
        if h.asset_class == AssetClass::Equity {
            rest.push((h.symbol@, opt_view(h.name)))
        } else {
            rest
        }
    }
}

pub open spec fn targets_view(t: Seq<Target>) -> Seq<(Seq<char>, Option<Seq<char>>)> {
    Seq::new(t.len(), |i: int| (t[i].symbol@, opt_view(t[i].name)))
}

fn clone_opt(s: &Option<String>) -> (r: Option<String>)
    ensures
        opt_view(r) == opt_view(*s),
{
    match s {
        Some(x) => Some(x.clone()),
        None => None,
    }
}

/// The open equity names of the book (index, commodity and crypto rows are
/// skipped), not forced.
pub fn equity_book_targets(holdings: &[HoldingRef]) -> (r: Vec<Target>)
    ensures
        targets_view(r@) == equity_targets_spec(holdings@),
        forall|i: int| 0 <= i < r@.len() ==> !(#[trigger] r@[i]).force,
{
    let mut r: Vec<Target> = Vec::new();
    let mut i: usize = 0;
    while i < holdings.len()
        invariant
            i <= holdings@.len(),
            targets_view(r@) == equity_targets_spec(holdings@.subrange(0, i as int)),
            forall|k: int| 0 <= k < r@.len() ==> !(#[trigger] r@[k]).force,
        decreases holdings@.len() - i,
    {
        assert(holdings@.subrange(0, i + 1).drop_last() =~= holdings@.subrange(0, i as int));
        assert(holdings@.subrange(0, i + 1).last() == holdings@[i as int]);
        if holdings[i].asset_class == AssetClass::Equity {
            let ghost before = targets_view(r@);
            r.push(
                Target {
                    symbol: holdings[i].symbol.clone(),
                    name: clone_opt(&holdings[i].name),
                    force: false,
                },
            );
            assert(targets_view(r@) =~= before.push(
                (holdings@[i as int].symbol@, opt_view(holdings@[i as int].name)),
            ));
        }
        i = i + 1;
    }
    assert(holdings@.subrange(0, holdings@.len() as int) =~= holdings@);
    r
}

/// An explicit filter's target: the matching book row's symbol and name when
/// held, else the symbol as requested without a name.
pub open spec fn explicit_target_spec(holdings: Seq<HoldingRef>, s: Seq<char>) -> (
    Seq<char>,
    Option<Seq<char>>,
) {
    match first_matching_holding(holdings, s) {
        Some(i) => (holdings[i].symbol@, opt_view(holdings[i].name)),
        None => (s, None),
    }
}

/// One forced target per requested symbol, in request order.
pub fn explicit_targets(holdings: &[HoldingRef], symbols: &[String]) -> (r: Vec<Target>)
    ensures
        r@.len() == symbols@.len(),
        forall|i: int|
            0 <= i < r@.len() ==> (#[trigger] r@[i]).force && (r@[i].symbol@, opt_view(r@[i].name))
                == explicit_target_spec(holdings@, symbols@[i]@),
{
    let mut r: Vec<Target> = Vec::new();
    let mut i: usize = 0;
    while i < symbols.len()
        invariant
            i <= symbols@.len(),
            r@.len() == i,
            forall|k: int|
                0 <= k < i ==> (#[trigger] r@[k]).force && (r@[k].symbol@, opt_view(r@[k].name))
                    == explicit_target_spec(holdings@, symbols@[k]@),
        decreases symbols@.len() - i,
    {
        let t = match find_holding(holdings, symbols[i].as_str()) {
            Some(h) => Target {
                symbol: holdings[h].symbol.clone(),
                name: clone_opt(&holdings[h].name),
                force: true,
            },
            None => Target { symbol: symbols[i].clone(), name: None, force: true },
        };
        r.push(t);
        i = i + 1;
    }
    r
}

/// Whether a looked-up name gets a row: always for an explicit filter; for
/// the book scan only with a report date inside the window.
pub fn should_emit(force: bool, has_next: bool, has_last: bool, within_window: bool) -> (r: bool)
    ensures
        r == (force || ((has_next || has_last) && within_window)),
{
    force || ((has_next || has_last) && within_window)
}

/// Error row text when the provider fails for `key`.
pub fn earnings_error(key: &str, error: &str) -> (r: String)
    ensures
        r@ == "earnings for "@ + key@ + ": "@ + error@,
{
    let mut e = owned("earnings for ");
    e.append(key);
    e.append(": ");
    e.append(error);
    e
}


/// What the earnings provider answered for one target's lookup key.
pub enum EarningsAnswer {
    /// Not asked: the target has no usable lookup key.
    NotAsked,
    /// Report dates, in Unix milliseconds.
    Found { next_report_ms: Option<i64>, last_report_ms: Option<i64> },
    /// The lookup failed with this message.
    Failed { error: String },
}

/// What the calendar shows for one target.
pub enum CalendarRow {
    /// No row.
    Skip,
    /// A row with the provider's dates and estimates.
    Report,
    /// A row carrying this error.
    Error { message: String },
}

/// `None` for no row, `Some(None)` for a report row, `Some(Some(m))` for an
/// error row with message `m`.
pub open spec fn calendar_row_view(r: CalendarRow) -> Option<Option<Seq<char>>> {
    match r {
        CalendarRow::Skip => None,
        CalendarRow::Report => Some(None),
        CalendarRow::Error { message } => Some(Some(message@)),
    }
}

/// A target's row: a forced target always gets one (its dates, or the
/// mapping or lookup error); a book target only for found dates inside the
/// window.
pub open spec fn calendar_row_spec(
    force: bool,
    symbol: Seq<char>,
    answer: EarningsAnswer,
    horizon_days: i64,
    include_past_days: i64,
    as_of_ms: i64,
) -> Option<Option<Seq<char>>> {
    match finnhub_symbol_spec(symbol) {
        Err(msg) => if force {
            Some(Some(msg))
        } else {
            None
        },
        Ok(key) => match answer {
            EarningsAnswer::Found { next_report_ms, last_report_ms } => if force || ((
            next_report_ms is Some || last_report_ms is Some) && in_window_spec(
                next_report_ms,
                last_report_ms,
                horizon_days,
                include_past_days,
                as_of_ms,
            )) {
                Some(None)
            } else {
                None
            },
            EarningsAnswer::Failed { error } => if force {
                Some(Some("earnings for "@ + key + ": "@ + error@))
            } else {
                None
            },
            EarningsAnswer::NotAsked => None,
        },
    }
}

/// The row of one target, given the provider's answer for its key.
pub fn calendar_row(
    t: &Target,
    answer: &EarningsAnswer,
    horizon_days: i64,
    include_past_days: i64,
    as_of_ms: i64,
) -> (r: CalendarRow)
    requires
        horizon_days <= MAX_WINDOW_DAYS,
        include_past_days <= MAX_WINDOW_DAYS,
    ensures
        calendar_row_view(r) == calendar_row_spec(
            t.force,
            t.symbol@,
            *answer,
            horizon_days,
            include_past_days,
            as_of_ms,
        ),
{
    match finnhub_earnings_symbol(t.symbol.as_str()) {
        Err(msg) => if t.force {
            CalendarRow::Error { message: msg }
        } else {
            CalendarRow::Skip
        },
        Ok(key) => match answer {
            EarningsAnswer::Found { next_report_ms, last_report_ms } => {
                let within = in_window(
                    *next_report_ms,
                    *last_report_ms,
                    horizon_days,
                    include_past_days,
                    as_of_ms,
                );
                if should_emit(t.force, next_report_ms.is_some(), last_report_ms.is_some(), within) {
                    CalendarRow::Report
                } else {
                    CalendarRow::Skip
                }
            },
            EarningsAnswer::Failed { error } => if t.force {
                CalendarRow::Error { message: earnings_error(key.as_str(), error.as_str()) }
            } else {
                CalendarRow::Skip
            },
            EarningsAnswer::NotAsked => CalendarRow::Skip,
        },
    }
}

/// The row planned for target `i`.
pub open spec fn row_of(
    targets: Seq<Target>,
    answers: Seq<EarningsAnswer>,
    horizon_days: i64,
    include_past_days: i64,
    as_of_ms: i64,
    i: int,
) -> Option<Option<Seq<char>>> {
    calendar_row_spec(
        targets[i].force,
        targets[i].symbol@,
        answers[i],
        horizon_days,
        include_past_days,
        as_of_ms,
    )
}

/// Indices, in order, of the first `n` targets that get a row.
pub open spec fn emitted(
    targets: Seq<Target>,
    answers: Seq<EarningsAnswer>,
    horizon_days: i64,
    include_past_days: i64,
    as_of_ms: i64,
    n: int,
) -> Seq<int>
    decreases n,
{
    if n <= 0 {
        Seq::empty()
    } else {
        let prev = emitted(targets, answers, horizon_days, include_past_days, as_of_ms, n - 1);
        if row_of(targets, answers, horizon_days, include_past_days, as_of_ms, n - 1) is Some {
            prev.push(n - 1)
        } else {
            prev
        }
    }
}

/// One calendar event: the target it is for and its row (a report or an
/// error, never `Skip`).
pub struct CalendarEvent {
    pub target: usize,
    pub row: CalendarRow,
}

pub open spec fn event_targets(v: Seq<CalendarEvent>) -> Seq<int> {
    Seq::new(v.len(), |k: int| v[k].target as int)
}

/// The calendar's events, in target order: one for each target that gets a
/// row; `answers[i]` is the provider's answer for `targets[i]`.
pub fn calendar_events(
    targets: &Vec<Target>,
    answers: &Vec<EarningsAnswer>,
    horizon_days: i64,
    include_past_days: i64,
    as_of_ms: i64,
) -> (r: Vec<CalendarEvent>)
    requires
        targets@.len() == answers@.len(),
        horizon_days <= MAX_WINDOW_DAYS,
        include_past_days <= MAX_WINDOW_DAYS,
    ensures
        event_targets(r@) == emitted(
            targets@,
            answers@,
            horizon_days,
            include_past_days,
            as_of_ms,
            targets@.len() as int,
        ),
        forall|k: int|
            0 <= k < r@.len() ==> calendar_row_view(#[trigger] r@[k].row) == row_of(
                targets@,
                answers@,
                horizon_days,
                include_past_days,
                as_of_ms,
                r@[k].target as int,
            ),
{
    let mut r: Vec<CalendarEvent> = Vec::new();
    let mut i: usize = 0;
    while i < targets.len()
        invariant
            i <= targets@.len(),
            targets@.len() == answers@.len(),
            horizon_days <= MAX_WINDOW_DAYS,
            include_past_days <= MAX_WINDOW_DAYS,
            event_targets(r@) == emitted(
                targets@,
                answers@,
                horizon_days,
                include_past_days,
                as_of_ms,
                i as int,
            ),
            forall|k: int|
                0 <= k < r@.len() ==> calendar_row_view(#[trigger] r@[k].row) == row_of(
                    targets@,
                    answers@,
                    horizon_days,
                    include_past_days,
                    as_of_ms,
                    r@[k].target as int,
                ),
        decreases targets@.len() - i,
    {
        let row = calendar_row(&targets[i], &answers[i], horizon_days, include_past_days, as_of_ms);
        match row {
            CalendarRow::Skip => {},
            _ => {
                let ghost before = r@;
                r.push(CalendarEvent { target: i, row });
                assert(event_targets(r@) =~= event_targets(before).push(i as int));
            },
        }
        i = i + 1;
    }
    r
}

/// With every target forced and asked exactly when it has a lookup key,
/// every target gets an event, in order: an explicit symbol filter yields one
/// event per requested symbol.
pub proof fn lemma_forced_targets_all_emitted(
    targets: Seq<Target>,
    answers: Seq<EarningsAnswer>,
    horizon_days: i64,
    include_past_days: i64,
    as_of_ms: i64,
    n: int,
)
    requires
        0 <= n <= targets.len(),
        targets.len() == answers.len(),
        forall|i: int| 0 <= i < targets.len() ==> (#[trigger] targets[i]).force,
        forall|i: int|
            0 <= i < targets.len() ==> ((#[trigger] answers[i]) is NotAsked <==> finnhub_symbol_spec(
                targets[i].symbol@,
            ) is Err),
    ensures
        emitted(targets, answers, horizon_days, include_past_days, as_of_ms, n) == Seq::new(
            n as nat,
            |i: int| i,
        ),
    decreases n,
{
    if n > 0 {
        lemma_forced_targets_all_emitted(
            targets,
            answers,
            horizon_days,
            include_past_days,
            as_of_ms,
            n - 1,
        );
        assert(targets[n - 1].force);
        assert(answers[n - 1] is NotAsked <==> finnhub_symbol_spec(targets[n - 1].symbol@) is Err);
        lemma_calendar_rows(
            true,
            targets[n - 1].symbol@,
            answers[n - 1],
            horizon_days,
            include_past_days,
            as_of_ms,
        );
        assert(Seq::new((n - 1) as nat, |i: int| i).push(n - 1) =~= Seq::new(n as nat, |i: int| i));
    }
}

/// Every forced target gets a row, so an explicit symbol filter gives one
/// row per requested symbol; a book target's row, when it has one, reports
/// found dates with one of them inside the window.
pub proof fn lemma_calendar_rows(
    force: bool,
    symbol: Seq<char>,
    answer: EarningsAnswer,
    horizon_days: i64,
    include_past_days: i64,
    as_of_ms: i64,
)
    requires
        (answer is NotAsked) <==> (finnhub_symbol_spec(symbol) is Err),
    ensures
        force ==> calendar_row_spec(
            force,
            symbol,
            answer,
            horizon_days,
            include_past_days,
            as_of_ms,
        ) is Some,
        !force && calendar_row_spec(
            force,
            symbol,
            answer,
            horizon_days,
            include_past_days,
            as_of_ms,
        ) is Some ==> calendar_row_spec(
            force,
            symbol,
            answer,
            horizon_days,
            include_past_days,
            as_of_ms,
        ) == Some(None::<Seq<char>>) && match answer {
            EarningsAnswer::Found { next_report_ms, last_report_ms } => in_window_spec(
                next_report_ms,
                last_report_ms,
                horizon_days,
                include_past_days,
                as_of_ms,
            ),
            _ => false,
        },
{
}

} // verus!
