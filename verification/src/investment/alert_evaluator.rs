//! Alert evaluator cadence and the decisions of one evaluation cycle: when
//! to reload the REST book and how long to wait after a failed session.
//!
//! The WebSocket session, REST calls and outbox writes are the caller's.
use vstd::prelude::*;
use crate::investment::config::{
    env_flag_or, flag_or, intervals_spec, opt_view, AlertsConfig, DEFAULT_EVAL_INTERVAL_SECS,
    DEFAULT_REST_RECONCILE_SECS,
};
use crate::investment::watches::{rule_needs_book, watch_needs_book, WatchRule};

verus! {

/// First backoff after a failed evaluator session (seconds).
pub const SESSION_BACKOFF_START_SECS: u64 = 2;

/// Cap on the evaluator session backoff (seconds).
pub const SESSION_BACKOFF_MAX_SECS: u64 = 60;

/// Legacy gate from `TRADING_ALERT_EVALUATOR` (`raw` is its value when set).
pub fn alert_evaluator_enabled(raw: Option<&str>) -> (r: bool)
    ensures
        r == flag_or(opt_view(raw), false),
{
    env_flag_or(raw, false)
}

/// Evaluation and REST reconcile cadence, in seconds.
pub struct AlertEvaluatorConfig {
    pub eval_interval_secs: u64,
    pub rest_reconcile_secs: u64,
}

impl Default for AlertEvaluatorConfig {
    fn default() -> (r: Self)
        ensures
            r.eval_interval_secs == DEFAULT_EVAL_INTERVAL_SECS,
            r.rest_reconcile_secs == DEFAULT_REST_RECONCILE_SECS,
    {
        AlertEvaluatorConfig {
            eval_interval_secs: DEFAULT_EVAL_INTERVAL_SECS,
            rest_reconcile_secs: DEFAULT_REST_RECONCILE_SECS,
        }
    }
}

impl AlertEvaluatorConfig {
    /// Cadence from the default `[finance.alerts]` plus the interval
    /// overrides (`TRADING_ALERT_EVAL_INTERVAL_SECS`,
    /// `TRADING_ALERT_REST_RECONCILE_SECS`).
    pub fn from_env(eval_raw: Option<&str>, rest_raw: Option<&str>) -> (r: Self)
        ensures
            (r.eval_interval_secs, r.rest_reconcile_secs) == intervals_spec(
                AlertsConfig {
                    evaluator_enabled: false,
                    eval_interval_secs: DEFAULT_EVAL_INTERVAL_SECS,
                    rest_reconcile_secs: DEFAULT_REST_RECONCILE_SECS,
                },
                opt_view(eval_raw),
                opt_view(rest_raw),
            ),
    {
        let alerts = AlertsConfig::default();
        Self::from_alerts_config(&alerts, eval_raw, rest_raw)
    }

    /// Cadence from mounted `[finance.alerts]` with the optional overrides.
    pub fn from_alerts_config(alerts: &AlertsConfig, eval_raw: Option<&str>, rest_raw: Option<&str>) -> (r:
        Self)
        ensures
            (r.eval_interval_secs, r.rest_reconcile_secs) == intervals_spec(
                *alerts,
                opt_view(eval_raw),
                opt_view(rest_raw),
            ),
    {
        let (eval, rest) = alerts.resolve_intervals(eval_raw, rest_raw);
        AlertEvaluatorConfig { eval_interval_secs: eval, rest_reconcile_secs: rest }
    }
}

/// Whether a cycle must reload the REST book: the book changed, none is
/// loaded, or the reconcile interval has passed since the last reload.
pub fn force_book(book_dirty: bool, has_book: bool, secs_since_reconcile: u64, rest_reconcile_secs: u64) -> (r:
    bool)
    ensures
        r == (book_dirty || !has_book || secs_since_reconcile >= rest_reconcile_secs),
{
    book_dirty || !has_book || secs_since_reconcile >= rest_reconcile_secs
}

pub open spec fn any_needs_book(rules: Seq<WatchRule>) -> bool {
    exists|i: int| 0 <= i < rules.len() && rule_needs_book(#[trigger] rules[i])
}

/// Plan of one evaluation cycle over the enabled watches' rules.
pub struct CyclePlan {
    /// Nothing to do: no enabled watches.
    pub idle: bool,
    /// Some watch reads the REST book.
    pub needs_book: bool,
    /// Reload the REST book before evaluating.
    pub reload_book: bool,
}

/// A cycle needs the REST book exactly when some enabled watch is not a
/// day-change watch; with no book loaded such a cycle reloads it.
pub proof fn lemma_cycle_needs_book(rules: Seq<WatchRule>, force: bool, has_book: bool)
    ensures
        any_needs_book(rules) <==> exists|i: int|
            0 <= i < rules.len() && #[trigger] rules[i] != WatchRule::DayChangePct,
        (exists|i: int| 0 <= i < rules.len() && #[trigger] rules[i] != WatchRule::DayChangePct)
            && !has_book ==> rules.len() > 0 && (force || (any_needs_book(rules) && !has_book)),
{
    if exists|i: int| 0 <= i < rules.len() && #[trigger] rules[i] != WatchRule::DayChangePct {
        let i = choose|i: int| 0 <= i < rules.len() && #[trigger] rules[i] != WatchRule::DayChangePct;
        crate::investment::watches::lemma_only_day_change_skips_book(rules[i]);
        assert(rule_needs_book(rules[i]));
    }
    if any_needs_book(rules) {
        let i = choose|i: int| 0 <= i < rules.len() && rule_needs_book(#[trigger] rules[i]);
        assert(rules[i] != WatchRule::DayChangePct);
    }
}

/// Plan a cycle: idle without watches; reload the book when forced, or when a
/// watch needs it and none is loaded.
pub fn plan_cycle(rules: &[WatchRule], force: bool, has_book: bool) -> (r: CyclePlan)
    ensures
        r.idle == (rules@.len() == 0),
        r.needs_book == any_needs_book(rules@),
        r.reload_book == (rules@.len() > 0 && (force || (any_needs_book(rules@) && !has_book))),
{
    let mut needs = false;
    let mut i: usize = 0;
    while i < rules.len()
        invariant
            i <= rules@.len(),
            needs == exists|k: int| 0 <= k < i && rule_needs_book(#[trigger] rules@[k]),
        decreases rules@.len() - i,
    {
        if watch_needs_book(rules[i]) {
            needs = true;
        }
        i = i + 1;
    }
    let idle = rules.len() == 0;
    CyclePlan { idle, needs_book: needs, reload_book: !idle && (force || (needs && !has_book)) }
}

/// A failed reload ends the cycle only when the book is needed and none is
/// loaded.
pub fn reload_failure_is_fatal(needs_book: bool, has_book: bool) -> (r: bool)
    ensures
        r == (needs_book && !has_book),
{
    needs_book && !has_book
}

/// Backoff before the next evaluator session: doubled, at most 60 s.
pub fn next_session_backoff(cur: u64) -> (r: u64)
    requires
        cur <= u64::MAX / 2,
    ensures
        r == (if 2 * cur < SESSION_BACKOFF_MAX_SECS {
            2 * cur
        } else {
            SESSION_BACKOFF_MAX_SECS as int
        }),
        r <= SESSION_BACKOFF_MAX_SECS,
{
    crate::investment::telegram_outbox::next_failure_backoff(cur, SESSION_BACKOFF_MAX_SECS)
}

} // verus!
