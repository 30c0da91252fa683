use finance::analysis::news::{feed_headlines, news_items, FeedInstant, RawFeedEntry};

const FEED: &str = r#"<?xml version="1.0" encoding="UTF-8"?>
<rss version="2.0"><channel><title>News</title><link>https://news.example</link><description>d</description>
<item><title>First headline</title><link>https://news.example/1</link><description>One</description><pubDate>Tue, 02 Jan 2024 00:00:00 GMT</pubDate></item>
<item><link>https://news.example/2</link><description>untitled</description></item>
<item><title>Third headline</title><link>https://news.example/3</link></item>
</channel></rss>"#;

#[test]
fn titled_entries_within_the_limit_become_items() {
    let items = news_items(FEED.as_bytes(), 5).unwrap();
    assert_eq!(items.len(), 2);
    assert_eq!(items[0].title, "First headline");
    assert_eq!(items[0].url.as_deref(), Some("https://news.example/1"));
    assert_eq!(items[0].published, Some(FeedInstant { secs: 1_704_153_600, nanos: 0 }));
    assert_eq!(items[1].title, "Third headline");
    assert_eq!(items[1].url.as_deref(), Some("https://news.example/3"));
    assert_eq!(items[1].published, None);
}

#[test]
fn the_limit_counts_entries_not_items() {
    let items = news_items(FEED.as_bytes(), 2).unwrap();
    assert_eq!(items.len(), 1);
    assert_eq!(items[0].title, "First headline");
    assert!(news_items(FEED.as_bytes(), 0).unwrap().is_empty());
}

#[test]
fn bytes_that_are_not_a_feed_are_an_error() {
    let e = news_items(b"certainly not a feed", 5).err().unwrap();
    assert!(e.starts_with("rss parse: "), "{e}");
    assert!(e.len() > "rss parse: ".len(), "{e}");
}

fn raw(title: Option<&str>, links: &[&str], published: Option<FeedInstant>, updated: Option<FeedInstant>) -> RawFeedEntry {
    RawFeedEntry {
        title: title.map(|t| t.to_string()),
        links: links.iter().map(|l| l.to_string()).collect(),
        summary: None,
        published,
        updated,
    }
}

#[test]
fn headlines_keep_titled_entries_with_first_link_and_instant() {
    let t1 = FeedInstant { secs: 10, nanos: 500 };
    let t2 = FeedInstant { secs: 20, nanos: 7 };
    let raws = vec![
        raw(Some("a"), &["u1", "u2"], None, Some(t2)),
        raw(Some(""), &["u3"], Some(t1), None),
        raw(None, &[], None, None),
        raw(Some("d"), &[], Some(t1), Some(t2)),
    ];
    let items = feed_headlines(&raws, 10);
    assert_eq!(items.len(), 2);
    assert_eq!(items[0].title, "a");
    assert_eq!(items[0].url.as_deref(), Some("u1"));
    assert_eq!(items[0].published, Some(t2));
    assert_eq!(items[1].title, "d");
    assert_eq!(items[1].url, None);
    assert_eq!(items[1].published, Some(t1));
    assert_eq!(feed_headlines(&raws, 3).len(), 1);
    assert!(feed_headlines(&raws, 0).is_empty());
}
