//! Research providers: request URLs, and the choices made on their replies
//! (dominant recommendation, forward EPS years, report dates, headlines).
use vstd::prelude::*;
use chrono::TimeZone;
use crate::text::{eq_ignore_ascii_case, eq_ignore_case, owned, to_chars};
use crate::url::{url_encode, url_encoded};

verus! {

/// Finnhub REST base URL.
pub const FINNHUB_BASE: &'static str = "https://finnhub.io/api/v1";

/// Headlines kept per symbol in an analysis row.
pub const NEWS_PER_SYMBOL: usize = 3;

/// Default headline limit of the RSS provider.
pub const DEFAULT_NEWS_LIMIT: usize = 5;

/// Query string of `pairs`, each key and value encoded, joined by `&`.
pub open spec fn query_string(pairs: Seq<(&str, &str)>) -> Seq<char>
    decreases pairs.len(),
{
    if pairs.len() == 0 {
        Seq::empty()
    } else {
        let head = query_string(pairs.drop_last());
        let p = pairs.last();
        head + (if pairs.len() == 1 {
            seq!['?']
        } else {
            seq!['&']
        }) + url_encoded(p.0@) + seq!['='] + url_encoded(p.1@)
    }
}

/// Finnhub request URL: base, path, then `?k=v&k=v` with every key and
/// value URL-encoded.
pub fn finnhub_url(path: &str, query: &[(&str, &str)]) -> (r: String)
    ensures
        r@ == FINNHUB_BASE@ + path@ + query_string(query@),
{
    let mut url = owned(FINNHUB_BASE);
    url.append(path);
    let mut i: usize = 0;
    while i < query.len()
        invariant
            i <= query@.len(),
            url@ == FINNHUB_BASE@ + path@ + query_string(query@.subrange(0, i as int)),
        decreases query@.len() - i,
    {
        let ghost before = url@;
        assert(query@.subrange(0, i + 1).drop_last() =~= query@.subrange(0, i as int));
        assert(query@.subrange(0, i + 1).last() == query@[i as int]);
        if i == 0 {
            url.append("?");
            assert("?"@ == seq!['?']) by {
                reveal_strlit("?");
            }
        } else {
            url.append("&");
            assert("&"@ == seq!['&']) by {
                reveal_strlit("&");
            }
        }
        let k = url_encode(query[i].0);
        url.append(k.as_str());
        url.append("=");
        assert("="@ == seq!['=']) by {
            reveal_strlit("=");
        }
        let v = url_encode(query[i].1);
        url.append(v.as_str());
        assert(url@ =~= FINNHUB_BASE@ + path@ + query_string(query@.subrange(0, i + 1)));
        i = i + 1;
    }
    assert(query@.subrange(0, query@.len() as int) =~= query@);
    url
}

/// Google News query for a symbol, with its display name when known.
pub open spec fn news_query(symbol: Seq<char>, name: Option<Seq<char>>) -> Seq<char> {
    match name {
        Some(n) => if n.len() > 0 {
            symbol + " OR \""@ + n + "\" stock"@
        } else {
            symbol + " stock"@
        },
        None => symbol + " stock"@,
    }
}

/// Google News RSS search URL for a symbol.
pub fn feed_url(symbol: &str, name: Option<&str>) -> (r: String)
    ensures
        r@ == "https://news.google.com/rss/search?q="@ + url_encoded(
            news_query(
                symbol@,
                match name {
                    Some(n) => Some(n@),
                    None => None,
                },
            ),
        ) + "&hl=en-US&gl=US&ceid=US:en"@,
{
    let mut q = owned(symbol);
    match name {
        Some(n) => {
            if n.is_empty() {
                q.append(" stock");
            } else {
                q.append(" OR \"");
                q.append(n);
                q.append("\" stock");
            }
        },
        None => {
            q.append(" stock");
        },
    }
    let encoded = url_encode(q.as_str());
    let mut url = owned("https://news.google.com/rss/search?q=");
    url.append(encoded.as_str());
    url.append("&hl=en-US&gl=US&ceid=US:en");
    url
}

/// Recommendation label with the most votes; among equal counts the later
/// label wins (strong buy, buy, hold, sell, strong sell order). None when
/// there are no votes.
pub open spec fn dominant_spec(counts: Seq<u32>, labels: Seq<Seq<char>>) -> Option<Seq<char>>
    recommends
        counts.len() == labels.len(),
{
    if forall|i: int| 0 <= i < counts.len() ==> counts[i] == 0 {
        None
    } else {
        Some(labels[dominant_index(counts) as int])
    }
}

/// Index of the last maximum.
pub open spec fn dominant_index(counts: Seq<u32>) -> int
    decreases counts.len(),
{
    if counts.len() <= 1 {
        0
    } else {
        let k = dominant_index(counts.drop_last());
        if counts.last() >= counts[k] {
            counts.len() - 1
        } else {
            k
        }
    }
}

pub open spec fn recommendation_labels() -> Seq<Seq<char>> {
    seq!["strong_buy"@, "buy"@, "hold"@, "sell"@, "strong_sell"@]
}

/// Dominant recommendation of the newest trend row (missing counts are 0).
pub fn dominant_recommendation(
    strong_buy: Option<u32>,
    buy: Option<u32>,
    hold: Option<u32>,
    sell: Option<u32>,
    strong_sell: Option<u32>,
) -> (r: Option<&'static str>)
    ensures
        match r {
            Some(s) => dominant_spec(
                seq![
                    strong_buy.unwrap_or(0),
                    buy.unwrap_or(0),
                    hold.unwrap_or(0),
                    sell.unwrap_or(0),
                    strong_sell.unwrap_or(0),
                ],
                recommendation_labels(),
            ) == Some(s@),
            None => dominant_spec(
                seq![
                    strong_buy.unwrap_or(0),
                    buy.unwrap_or(0),
                    hold.unwrap_or(0),
                    sell.unwrap_or(0),
                    strong_sell.unwrap_or(0),
                ],
                recommendation_labels(),
            ) is None,
        },
{
    let counts: [u32; 5] = [
        match strong_buy {
            Some(v) => v,
            None => 0,
        },
        match buy {
            Some(v) => v,
            None => 0,
        },
        match hold {
            Some(v) => v,
            None => 0,
        },
        match sell {
            Some(v) => v,
            None => 0,
        },
        match strong_sell {
            Some(v) => v,
            None => 0,
        },
    ];
    let labels: [&'static str; 5] = ["strong_buy", "buy", "hold", "sell", "strong_sell"];
    let ghost cs = seq![
        strong_buy.unwrap_or(0),
        buy.unwrap_or(0),
        hold.unwrap_or(0),
        sell.unwrap_or(0),
        strong_sell.unwrap_or(0),
    ];
    assert(counts@ =~= cs);
    let mut best: usize = 0;
    let mut any = counts[0] != 0;
    let mut i: usize = 1;
    while i < 5
        invariant
            1 <= i <= 5,
            counts@ == cs,
            best == dominant_index(cs.subrange(0, i as int)),
            best < i,
            any == exists|k: int| 0 <= k < i && cs[k] != 0,
        decreases 5 - i,
    {
        assert(cs.subrange(0, i + 1).drop_last() =~= cs.subrange(0, i as int));
        assert(cs.subrange(0, i as int)[best as int] == cs[best as int]);
        if counts[i] >= counts[best] {
            best = i;
        }
        if counts[i] != 0 {
            any = true;
        }
        i = i + 1;
    }
    assert(cs.subrange(0, 5) =~= cs);
    if !any {
        return None;
    }
    assert(labels@[best as int]@ == recommendation_labels()[best as int]);
    Some(labels[best])
}

/// Forward EPS rows: those whose fiscal year is at least `now_year`,
/// ordered by year (then by position); the first is the current year, the
/// second the next.
pub open spec fn forward_before(years: Seq<Option<i32>>, now_year: i32, i: int, j: int) -> bool {
    years[i] is Some && years[j] is Some && (years[i]->0 < years[j]->0 || (years[i]->0
        == years[j]->0 && i < j))
}

pub open spec fn is_forward(years: Seq<Option<i32>>, now_year: i32, i: int) -> bool {
    0 <= i < years.len() && years[i] is Some && years[i]->0 >= now_year
}

/// The first and second forward rows: a forward row is first when no other
/// forward row precedes it, second when exactly one does.
pub fn forward_eps_rows(years: &[Option<i32>], now_year: i32) -> (r: (Option<usize>, Option<usize>))
    ensures
        match r.0 {
            Some(c) => is_forward(years@, now_year, c as int) && forall|j: int|
                is_forward(years@, now_year, j) && j != c ==> forward_before(years@, now_year, c as int, j),
            None => forall|j: int| !is_forward(years@, now_year, j),
        },
        match r.1 {
            Some(n) => is_forward(years@, now_year, n as int) && r.0 is Some && n != r.0->0
                && forward_before(years@, now_year, r.0->0 as int, n as int) && forall|j: int|
                is_forward(years@, now_year, j) && j != r.0->0 && j != n ==> forward_before(
                years@,
                now_year,
                n as int,
                j,
            ),
            None => r.0 is None || forall|j: int|
                is_forward(years@, now_year, j) ==> j == r.0->0,
        },
{
    let mut first: Option<usize> = None;
    let mut second: Option<usize> = None;
    let mut i: usize = 0;
    while i < years.len()
        invariant
            i <= years@.len(),
            match first {
                Some(c) => c < i && is_forward(years@, now_year, c as int) && forall|j: int|
                    0 <= j < i && is_forward(years@, now_year, j) && j != c ==> forward_before(
                        years@,
                        now_year,
                        c as int,
                        j,
                    ),
                None => forall|j: int| 0 <= j < i ==> !is_forward(years@, now_year, j),
            },
            match second {
                Some(n) => n < i && first is Some && is_forward(years@, now_year, n as int) && n
                    != first->0 && forward_before(years@, now_year, first->0 as int, n as int)
                    && forall|j: int|
                    0 <= j < i && is_forward(years@, now_year, j) && j != first->0 && j != n
                        ==> forward_before(years@, now_year, n as int, j),
                None => first is None || forall|j: int|
                    0 <= j < i && is_forward(years@, now_year, j) ==> j == first->0,
            },
        decreases years@.len() - i,
    {
        if let Some(y) = years[i] {
            if y >= now_year {
                match first {
                    None => {
                        first = Some(i);
                    },
                    Some(c) => {
                        let cy = match years[c] {
                            Some(v) => v,
                            None => now_year,
                        };
                        if y < cy {
                            second = first;
                            first = Some(i);
                        } else {
                            match second {
                                None => {
                                    second = Some(i);
                                },
                                Some(n) => {
                                    let ny = match years[n] {
                                        Some(v) => v,
                                        None => now_year,
                                    };
                                    if y < ny {
                                        second = Some(i);
                                    }
                                },
                            }
                        }
                    },
                }
            }
        }
        i = i + 1;
    }
    (first, second)
}


/// `NaiveDate::parse_from_str(s, "%Y-%m-%d")` at 00:00 UTC, in Unix
/// milliseconds.
pub uninterp spec fn ymd_midnight_ms(s: Seq<char>) -> Option<i64>;

/// `NaiveDate::parse_from_str(s, "%Y-%m-%d")`, `and_hms_opt(0, 0, 0)` and
/// `Utc.from_utc_datetime(..).timestamp_millis()` (chrono): the report date
/// as midnight UTC, `None` when it does not parse.
#[verifier::external_body]
pub(crate) fn parse_date_ms(s: &str) -> (r: Option<i64>)
    ensures
        r == ymd_midnight_ms(s@),
{
    chrono::NaiveDate::parse_from_str(s, "%Y-%m-%d").ok().and_then(|d| d.and_hms_opt(0, 0, 0)).map(
        |ndt| chrono::Utc.from_utc_datetime(&ndt).timestamp_millis(),
    )
}

/// Report date of one calendar row, as midnight UTC in milliseconds.
pub open spec fn row_date_ms(date: Option<String>) -> Option<i64> {
    match date {
        Some(d) => ymd_midnight_ms(d@),
        None => None,
    }
}

/// Dates of a calendar reply's rows (`YYYY-MM-DD`), each as midnight UTC in
/// Unix milliseconds; `None` for a missing or unparsable date.
pub fn parse_report_dates(dates: &[Option<String>]) -> (r: Vec<Option<i64>>)
    ensures
        r@.len() == dates@.len(),
        forall|i: int| 0 <= i < dates@.len() ==> #[trigger] r@[i] == row_date_ms(dates@[i]),
{
    let mut out: Vec<Option<i64>> = Vec::new();
    let mut i: usize = 0;
    while i < dates.len()
        invariant
            i <= dates@.len(),
            out@.len() == i,
            forall|k: int| 0 <= k < i ==> #[trigger] out@[k] == row_date_ms(dates@[k]),
        decreases dates@.len() - i,
    {
        let d = match &dates[i] {
            Some(s) => parse_date_ms(s.as_str()),
            None => None,
        };
        out.push(d);
        i = i + 1;
    }
    out
}

/// A calendar row that counts for `symbol`: dated, and either without a
/// symbol or naming it (ignoring ASCII case).
pub open spec fn dated_row(rows: Seq<(Option<String>, Option<i64>)>, symbol: Seq<char>, i: int) -> bool {
    0 <= i < rows.len() && rows[i].1 is Some && match rows[i].0 {
        Some(s) => eq_ignore_case(s@, symbol),
        None => true,
    }
}

pub open spec fn row_date(rows: Seq<(Option<String>, Option<i64>)>, i: int) -> i64 {
    rows[i].1->0
}

/// The last report: the latest date not after `now` (the later row among
/// equal dates).
pub open spec fn is_last_report(rows: Seq<(Option<String>, Option<i64>)>, symbol: Seq<char>, now: i64, i: int) -> bool {
    dated_row(rows, symbol, i) && row_date(rows, i) <= now && forall|j: int|
        dated_row(rows, symbol, j) && row_date(rows, j) <= now && j != i ==> (row_date(rows, j)
            < row_date(rows, i) || (row_date(rows, j) == row_date(rows, i) && j < i))
}

/// The next report: the earliest date after `now` (the earlier row among
/// equal dates).
pub open spec fn is_next_report(rows: Seq<(Option<String>, Option<i64>)>, symbol: Seq<char>, now: i64, i: int) -> bool {
    dated_row(rows, symbol, i) && row_date(rows, i) > now && forall|j: int|
        dated_row(rows, symbol, j) && row_date(rows, j) > now && j != i ==> (row_date(rows, i)
            < row_date(rows, j) || (row_date(rows, i) == row_date(rows, j) && i < j))
}

/// Next and last report rows of a calendar reply for `symbol` at `now`.
pub fn select_report_dates(rows: &[(Option<String>, Option<i64>)], symbol: &str, now: i64) -> (r: (
    Option<usize>,
    Option<usize>,
))
    ensures
        match r.0 {
            Some(n) => is_next_report(rows@, symbol@, now, n as int),
            None => forall|j: int| dated_row(rows@, symbol@, j) ==> row_date(rows@, j) <= now,
        },
        match r.1 {
            Some(l) => is_last_report(rows@, symbol@, now, l as int),
            None => forall|j: int| dated_row(rows@, symbol@, j) ==> row_date(rows@, j) > now,
        },
{
    let sym = to_chars(symbol);
    let mut next: Option<usize> = None;
    let mut last: Option<usize> = None;
    let mut i: usize = 0;
    while i < rows.len()
        invariant
            i <= rows@.len(),
            sym@ == symbol@,
            match next {
                Some(n) => n < i && dated_row(rows@, symbol@, n as int) && row_date(rows@, n as int)
                    > now && forall|j: int|
                    0 <= j < i && dated_row(rows@, symbol@, j) && row_date(rows@, j) > now && j
                        != n ==> (row_date(rows@, n as int) < row_date(rows@, j) || (row_date(
                        rows@,
                        n as int,
                    ) == row_date(rows@, j) && n < j)),
                None => forall|j: int|
                    0 <= j < i && dated_row(rows@, symbol@, j) ==> row_date(rows@, j) <= now,
            },
            match last {
                Some(l) => l < i && dated_row(rows@, symbol@, l as int) && row_date(rows@, l as int)
                    <= now && forall|j: int|
                    0 <= j < i && dated_row(rows@, symbol@, j) && row_date(rows@, j) <= now && j
                        != l ==> (row_date(rows@, j) < row_date(rows@, l as int) || (row_date(
                        rows@,
                        j,
                    ) == row_date(rows@, l as int) && j < l)),
                None => forall|j: int|
                    0 <= j < i && dated_row(rows@, symbol@, j) ==> row_date(rows@, j) > now,
            },
        decreases rows@.len() - i,
    {
        let matches = match &rows[i].0 {
            Some(s) => {
                let c = to_chars(s.as_str());
                eq_ignore_ascii_case(c.as_slice(), sym.as_slice())
            },
            None => true,
        };
        if matches {
            if let Some(d) = rows[i].1 {
                if d > now {
                    match next {
                        None => {
                            next = Some(i);
                        },
                        Some(n) => {
                            let nd = match rows[n].1 {
                                Some(v) => v,
                                None => d,
                            };
                            if d < nd {
                                next = Some(i);
                            }
                        },
                    }
                } else {
                    match last {
                        None => {
                            last = Some(i);
                        },
                        Some(l) => {
                            let ld = match rows[l].1 {
                                Some(v) => v,
                                None => d,
                            };
                            if d >= ld {
                                last = Some(i);
                            }
                        },
                    }
                }
            }
        }
        i = i + 1;
    }
    (next, last)
}

} // verus!
