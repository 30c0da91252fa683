//! Spaced-repetition knowledge bank: entries, topics, tags, reviews and
//! affinity, with the decisions the store's queries are driven by.
use vstd::prelude::*;
use crate::text::{owned, str_eq};

verus! {

/// How the next question is chosen.
pub enum KnowledgeMode {
    WithTag { tag: String },
    Random,
}

/// Human-readable entry for a question.
pub struct HumanEntry {
    /// Unique identifier of the entry.
    pub id: String,
    pub topic: String,
    pub tags: Vec<String>,
    pub question: String,
    pub truth: String,
    /// Days until the next review when an affinity is set.
    pub affinity_days: Option<u32>,
}

/// Request body adding an entry.
pub struct NewKnowledge {
    pub topic_id: u64,
    pub question: String,
    pub truth: String,
    pub tags: Vec<String>,
}

/// Request body of the next daily question.
pub struct QuestionBody {
    pub tag: Option<String>,
}

/// Request body setting an affinity.
pub struct Affinity {
    pub days: u32,
}

/// Request body recording a review.
pub struct ReviewAttempts {
    pub attempts: u32,
}

/// Query of recent reviews.
pub struct ReviewQuery {
    pub days: Option<u32>,
}

pub struct TagList {
    pub tags: Vec<String>,
}

pub struct Topic {
    pub id: u64,
    pub name: String,
}

/// Stored affinity: zero days means no affinity at all.
pub fn affinity_days(days: u32) -> (r: Option<i64>)
    ensures
        r == (if days == 0 {
            None
        } else {
            Some(days as i64)
        }),
{
    if days == 0 {
        None
    } else {
        Some(days as i64)
    }
}

/// Default window of recent reviews (days).
pub const DEFAULT_REVIEW_WINDOW_DAYS: u32 = 7;

/// Window of recent reviews: seven days unless given, as the query's `i32`.
pub fn review_window_days(days: Option<u32>) -> (r: i32)
    ensures
        r == (match days {
            Some(d) => d,
            None => DEFAULT_REVIEW_WINDOW_DAYS,
        }) as i32,
{
    let d = match days {
        Some(d) => d,
        None => DEFAULT_REVIEW_WINDOW_DAYS,
    };
    #[verifier::truncate]
    (d as i32)
}

/// Files loaded into the bank: extension `yaml` or `yml`.
pub fn is_knowledge_file(extension: Option<&str>) -> (r: bool)
    ensures
        r == (match extension {
            Some(e) => e@ == "yaml"@ || e@ == "yml"@,
            None => false,
        }),
{
    match extension {
        Some(e) => str_eq(e, "yaml") || str_eq(e, "yml"),
        None => false,
    }
}

/// Next step of drawing an unreviewed entry from a topic.
pub enum DrawStep {
    /// Serve the entry that was found.
    Serve,
    /// Every entry of the topic was reviewed: reset the topic and draw again.
    ResetAndRetry,
    /// Still nothing after a reset.
    Fail(String),
}

/// After one draw: serve what was found; when nothing was, reset the topic
/// once and retry; a second miss is an error.
pub fn draw_step(found: bool, after_reset: bool) -> (r: DrawStep)
    ensures
        found ==> r is Serve,
        !found && !after_reset ==> r is ResetAndRetry,
        !found && after_reset ==> (r matches DrawStep::Fail(e) && e@
            == "Entries exist but failed to fetch after resetting review status"@),
{
    if found {
        DrawStep::Serve
    } else if !after_reset {
        DrawStep::ResetAndRetry
    } else {
        DrawStep::Fail(owned("Entries exist but failed to fetch after resetting review status"))
    }
}

/// A topic can only be drawn when some exist.
pub fn topics_available(count: i64) -> (r: Result<(), String>)
    ensures
        match r {
            Ok(()) => count != 0,
            Err(e) => count == 0 && e@ == "No topics are available"@,
        },
{
    if count == 0 {
        Err(owned("No topics are available"))
    } else {
        Ok(())
    }
}

} // verus!
