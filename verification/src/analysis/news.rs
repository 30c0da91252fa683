//! Headlines of an RSS / Atom news feed: the feed bytes are parsed by
//! feed-rs, and the first entries that carry a title become news items.
use vstd::prelude::*;
use crate::investment::config::opt_string_view;
use crate::text::owned;

verus! {

/// An instant of a feed: whole seconds since the Unix epoch and the
/// nanoseconds past that second.
#[derive(Clone, Copy, Debug, PartialEq, Eq, Structural)]
pub struct FeedInstant {
    pub secs: i64,
    pub nanos: u32,
}

/// One entry of a parsed feed, as feed-rs reports it.
pub struct RawFeedEntry {
    pub title: Option<String>,
    /// The `href` of every link, in feed order.
    pub links: Vec<String>,
    pub summary: Option<String>,
    pub published: Option<FeedInstant>,
    pub updated: Option<FeedInstant>,
}

/// A headline kept from a feed.
pub struct FeedEntry {
    pub title: String,
    /// First link of the entry.
    pub url: Option<String>,
    pub summary: Option<String>,
    /// Publication instant, else last update.
    pub published: Option<FeedInstant>,
}

/// `feed_rs::parser::parse(bytes)` (feed-rs): the parser's error message when
/// the bytes are not a feed, else per entry its title, link hrefs, summary,
/// and publication and update instants.
pub uninterp spec fn feed_entries(bytes: Seq<u8>) -> Result<
    Seq<(Option<Seq<char>>, Seq<Seq<char>>, Option<Seq<char>>, Option<FeedInstant>, Option<FeedInstant>)>,
    Seq<char>,
>;

pub open spec fn string_seq_view(v: Seq<String>) -> Seq<Seq<char>> {
    Seq::new(v.len(), |i: int| v[i]@)
}

pub open spec fn raw_view(e: RawFeedEntry) -> (
    Option<Seq<char>>,
    Seq<Seq<char>>,
    Option<Seq<char>>,
    Option<FeedInstant>,
    Option<FeedInstant>,
) {
    (opt_string_view(e.title), string_seq_view(e.links@), opt_string_view(e.summary), e.published, e.updated)
}

pub open spec fn raw_views(v: Seq<RawFeedEntry>) -> Seq<
    (Option<Seq<char>>, Seq<Seq<char>>, Option<Seq<char>>, Option<FeedInstant>, Option<FeedInstant>),
> {
    Seq::new(v.len(), |i: int| raw_view(v[i]))
}

/// Parse feed bytes with feed-rs. The contract claims only that the entries
/// returned are the fields named by `feed_entries`, and that an error is the
/// parser's message; entry ids, which feed-rs may generate at random, are not
/// read.
#[verifier::external_body]
fn parse_feed(bytes: &[u8]) -> (r: Result<Vec<RawFeedEntry>, String>)
    ensures
        match r {
            Ok(v) => feed_entries(bytes@) is Ok && feed_entries(bytes@)->Ok_0 == raw_views(v@),
            Err(e) => feed_entries(bytes@) is Err && feed_entries(bytes@)->Err_0 == e@,
        },
{
    let instant = |d: chrono::DateTime<chrono::Utc>| FeedInstant { secs: d.timestamp(), nanos: d.timestamp_subsec_nanos() };
    feed_rs::parser::parse(bytes).map(|feed| feed.entries.into_iter().map(|e| RawFeedEntry {
        title: e.title.map(|t| t.content),
        links: e.links.into_iter().map(|l| l.href).collect(),
        summary: e.summary.map(|s| s.content),
        published: e.published.map(instant),
        updated: e.updated.map(instant),
    }).collect()).map_err(|e| e.to_string())
}

/// A news item as plain values: title, first link, summary, instant.
pub open spec fn item_of(
    e: (Option<Seq<char>>, Seq<Seq<char>>, Option<Seq<char>>, Option<FeedInstant>, Option<FeedInstant>),
) -> (Seq<char>, Option<Seq<char>>, Option<Seq<char>>, Option<FeedInstant>) {
    (
        match e.0 {
            Some(t) => t,
            None => Seq::empty(),
        },
        if e.1.len() > 0 {
            Some(e.1[0])
        } else {
            None
        },
        e.2,
        match e.3 {
            Some(p) => Some(p),
            None => e.4,
        },
    )
}

/// The items kept from the first `n` entries: those whose title is not
/// empty, in feed order.
pub open spec fn kept_items(
    raw: Seq<(Option<Seq<char>>, Seq<Seq<char>>, Option<Seq<char>>, Option<FeedInstant>, Option<FeedInstant>)>,
    n: int,
) -> Seq<(Seq<char>, Option<Seq<char>>, Option<Seq<char>>, Option<FeedInstant>)>
    decreases n,
{
    if n <= 0 {
        Seq::empty()
    } else if item_of(raw[n - 1]).0.len() > 0 {
        kept_items(raw, n - 1).push(item_of(raw[n - 1]))
    } else {
        kept_items(raw, n - 1)
    }
}

pub open spec fn entry_view(e: FeedEntry) -> (Seq<char>, Option<Seq<char>>, Option<Seq<char>>, Option<FeedInstant>) {
    (e.title@, opt_string_view(e.url), opt_string_view(e.summary), e.published)
}

pub open spec fn entry_views(v: Seq<FeedEntry>) -> Seq<(Seq<char>, Option<Seq<char>>, Option<Seq<char>>, Option<FeedInstant>)> {
    Seq::new(v.len(), |i: int| entry_view(v[i]))
}

pub open spec fn min_int(a: int, b: int) -> int {
    if a < b {
        a
    } else {
        b
    }
}

fn copy_opt(s: &Option<String>) -> (r: Option<String>)
    ensures
        opt_string_view(r) == opt_string_view(*s),
{
    match s {
        Some(v) => Some(owned(v.as_str())),
        None => None,
    }
}

fn item_from(e: &RawFeedEntry) -> (r: FeedEntry)
    ensures
        entry_view(r) == item_of(raw_view(*e)),
{
    let title = match &e.title {
        Some(t) => owned(t.as_str()),
        None => owned(""),
    };
    proof {
        reveal_strlit("");
    }
    let url = if e.links.len() > 0 {
        Some(owned(e.links[0].as_str()))
    } else {
        None
    };
    let published = match e.published {
        Some(p) => Some(p),
        None => e.updated,
    };
    FeedEntry { title, url, summary: copy_opt(&e.summary), published }
}

/// Headlines of parsed feed entries: the entries among the first `limit`
/// whose title is not empty, in feed order, each with its first link and its
/// publication (else update) instant.
pub fn feed_headlines(raws: &Vec<RawFeedEntry>, limit: usize) -> (r: Vec<FeedEntry>)
    ensures
        entry_views(r@) == kept_items(
            raw_views(raws@),
            min_int(limit as int, raws@.len() as int),
        ),
{
    let ghost raw = raw_views(raws@);
    let mut out: Vec<FeedEntry> = Vec::new();
    let mut i: usize = 0;
    while i < raws.len() && i < limit
        invariant
            raw == raw_views(raws@),
            i <= raws@.len(),
            i <= limit,
            entry_views(out@) == kept_items(raw, i as int),
        decreases raws@.len() - i,
    {
        let item = item_from(&raws[i]);
        assert(raw[i as int] == raw_view(raws@[i as int]));
        if !item.title.as_str().is_empty() {
            let ghost before = out@;
            let ghost iv = entry_view(item);
            out.push(item);
            assert(entry_views(out@) =~= entry_views(before).push(iv));
        } else {
            assert(item_of(raw[i as int]).0.len() == 0);
        }
        i = i + 1;
    }
    assert(i as int == min_int(limit as int, raw.len() as int));
    out
}

/// News items of a feed (see `feed_headlines`); when the bytes are not a
/// feed, `rss parse: ` followed by the parser's message.
pub fn news_items(bytes: &[u8], limit: usize) -> (r: Result<Vec<FeedEntry>, String>)
    ensures
        match feed_entries(bytes@) {
            Ok(raw) => r is Ok && entry_views(r->Ok_0@) == kept_items(
                raw,
                min_int(limit as int, raw.len() as int),
            ),
            Err(m) => r is Err && r->Err_0@ == "rss parse: "@ + m,
        },
{
    match parse_feed(bytes) {
        Ok(raws) => Ok(feed_headlines(&raws, limit)),
        Err(m) => {
            let mut e = owned("rss parse: ");
            e.append(m.as_str());
            Err(e)
        },
    }
}

} // verus!
