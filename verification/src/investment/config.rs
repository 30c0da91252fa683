//! Finance configuration sections (`[finance.alerts]`, `[finance.telegram]`)
//! and Dzengi credentials, merged with optional environment overrides.
//!
//! The environment is read by the caller; these functions take the raw
//! values (`None` when a variable is unset). Tokens and chat ids never appear
//! in the debug renderings.
use vstd::prelude::*;
use crate::investment::secret::Secret;
use crate::num::{parse_i64, parse_i64_spec, parse_u64, parse_u64_spec};
use crate::text::{
    concat2, eq_ignore_ascii_case_lit, eq_ignore_case, eq_lit, from_chars, owned, split_on,
    split_seq, str_eq, to_chars, trim, trim_chars, views, lemma_trim_idempotent,
    lemma_split_trimmed_pieces,
};

verus! {

pub const DEFAULT_EVAL_INTERVAL_SECS: u64 = 60;

pub const DEFAULT_REST_RECONCILE_SECS: u64 = 600;

pub const DEFAULT_TELEGRAM_POLL_SECS: u64 = 30;

pub const DEFAULT_TELEGRAM_BATCH_LIMIT: i64 = 20;

/// Upper bound on the Telegram poll interval (seconds).
pub const MAX_TELEGRAM_POLL_SECS: u64 = 600;

/// Upper bound on rows per Telegram drain.
pub const MAX_TELEGRAM_BATCH_LIMIT: i64 = 100;

/// Upper bound on the REST reconcile interval (seconds).
pub const MAX_REST_RECONCILE_SECS: u64 = 3600;

/// Bot API request timeout (seconds).
pub const TELEGRAM_HTTP_TIMEOUT_SECS: u64 = 15;

/// Dzengi REST credentials.
pub struct DzengiConfig {
    pub base_url: String,
    pub api_key: String,
    pub api_secret: String,
}

/// `[finance.alerts]`: evaluator gate and cadence.
pub struct AlertsConfig {
    pub evaluator_enabled: bool,
    pub eval_interval_secs: u64,
    pub rest_reconcile_secs: u64,
}

/// `[finance.telegram]`: delivery and inbound commands share one bot.
pub struct TelegramConfig {
    pub delivery_enabled: bool,
    pub commands_enabled: bool,
    pub bot_token: String,
    pub chat_id: String,
    pub poll_secs: u64,
    pub batch_limit: i64,
}

impl Default for AlertsConfig {
    fn default() -> (r: Self)
        ensures
            !r.evaluator_enabled,
            r.eval_interval_secs == DEFAULT_EVAL_INTERVAL_SECS,
            r.rest_reconcile_secs == DEFAULT_REST_RECONCILE_SECS,
    {
        AlertsConfig {
            evaluator_enabled: false,
            eval_interval_secs: DEFAULT_EVAL_INTERVAL_SECS,
            rest_reconcile_secs: DEFAULT_REST_RECONCILE_SECS,
        }
    }
}

impl Default for TelegramConfig {
    fn default() -> (r: Self)
        ensures
            !r.delivery_enabled,
            !r.commands_enabled,
            r.bot_token@.len() == 0,
            r.chat_id@.len() == 0,
            r.poll_secs == DEFAULT_TELEGRAM_POLL_SECS,
            r.batch_limit == DEFAULT_TELEGRAM_BATCH_LIMIT,
    {
        TelegramConfig {
            delivery_enabled: false,
            commands_enabled: false,
            bot_token: String::new(),
            chat_id: String::new(),
            poll_secs: DEFAULT_TELEGRAM_POLL_SECS,
            batch_limit: DEFAULT_TELEGRAM_BATCH_LIMIT,
        }
    }
}

fn bool_text(b: bool) -> (r: &'static str)
    ensures
        r@ == (if b {
            "true"@
        } else {
            "false"@
        }),
{
    if b {
        "true"
    } else {
        "false"
    }
}

/// `<str as Debug>::fmt` (std), as `format!("{:?}", s)` renders it: the
/// string in double quotes with quotes, backslashes, control characters and
/// (per std's Unicode tables) non-printable characters escaped.
pub uninterp spec fn str_debug(s: Seq<char>) -> Seq<char>;

/// `format!("{:?}", s)` for a string slice (std's `Debug` for `str`); the
/// contract names the result and claims nothing more of it.
#[verifier::external_body]
fn debug_quoted(s: &str) -> (r: String)
    ensures
        r@ == str_debug(s@),
{
    format!("{s:?}")
}

/// Debug rendering of Dzengi credentials around the already quoted base URL,
/// with key and secret redacted.
pub fn dzengi_debug_text(quoted_base_url: &str) -> (r: String)
    ensures
        r@ == "DzengiConfig { base_url: "@ + quoted_base_url@
            + ", api_key: \"[redacted]\", api_secret: \"[redacted]\" }"@,
{
    let mut r = owned("DzengiConfig { base_url: ");
    r.append(quoted_base_url);
    r.append(", api_key: \"[redacted]\", api_secret: \"[redacted]\" }");
    r
}

impl DzengiConfig {
    /// Debug rendering: the base URL as `Debug` quotes it, with key and
    /// secret redacted.
    pub fn debug_string(&self) -> (r: String)
        ensures
            r@ == "DzengiConfig { base_url: "@ + str_debug(self.base_url@)
                + ", api_key: \"[redacted]\", api_secret: \"[redacted]\" }"@,
    {
        let q = debug_quoted(self.base_url.as_str());
        dzengi_debug_text(q.as_str())
    }
}

impl TelegramConfig {
    /// Debug rendering: flags and numbers, token and chat id redacted.
    pub fn debug_string(&self) -> (r: String)
        ensures
            r@ == "TelegramConfig { delivery_enabled: "@ + (if self.delivery_enabled {
                "true"@
            } else {
                "false"@
            }) + ", commands_enabled: "@ + (if self.commands_enabled {
                "true"@
            } else {
                "false"@
            }) + ", bot_token: \"[redacted]\", chat_id: \"[redacted]\", poll_secs: "@
                + crate::num::dec(self.poll_secs as nat) + ", batch_limit: "@ + crate::num::dec_int(
                self.batch_limit as int,
            ) + " }"@,
    {
        let mut r = owned("TelegramConfig { delivery_enabled: ");
        r.append(bool_text(self.delivery_enabled));
        r.append(", commands_enabled: ");
        r.append(bool_text(self.commands_enabled));
        r.append(", bot_token: \"[redacted]\", chat_id: \"[redacted]\", poll_secs: ");
        let p = crate::num::u64_to_string(self.poll_secs);
        r.append(p.as_str());
        r.append(", batch_limit: ");
        let b = crate::num::i64_to_string(self.batch_limit);
        r.append(b.as_str());
        r.append(" }");
        r
    }
}

// ---------------------------------------------------------------------------
// Flags and overrides
// ---------------------------------------------------------------------------

/// `1`, `true` or `yes` (the last two in any ASCII case) is enabled.
pub open spec fn enabled_flag(raw: Option<Seq<char>>) -> bool {
    match raw {
        Some(v) => v == "1"@ || eq_ignore_case(v, "true"@) || eq_ignore_case(v, "yes"@),
        None => false,
    }
}

pub open spec fn opt_view(raw: Option<&str>) -> Option<Seq<char>> {
    match raw {
        Some(v) => Some(v@),
        None => None,
    }
}

/// Parse `1|true|yes` (case-insensitive) as enabled.
pub fn parse_enabled_flag(raw: Option<&str>) -> (r: bool)
    ensures
        r == enabled_flag(opt_view(raw)),
{
    match raw {
        Some(v) => {
            let c = to_chars(v);
            let c = c.as_slice();
            eq_lit(c, "1") || eq_ignore_ascii_case_lit(c, "true") || eq_ignore_ascii_case_lit(
                c,
                "yes",
            )
        },
        None => false,
    }
}

/// A set override's truthiness (after trimming) wins over the file value.
pub open spec fn flag_or(raw: Option<Seq<char>>, file_default: bool) -> bool {
    match raw {
        Some(v) => enabled_flag(Some(trim(v))),
        None => file_default,
    }
}

/// When the variable is set (`raw` is its value), its truthiness wins;
/// otherwise `file_default`.
pub fn env_flag_or(raw: Option<&str>, file_default: bool) -> (r: bool)
    ensures
        r == flag_or(opt_view(raw), file_default),
{
    match raw {
        Some(v) => {
            let c = to_chars(v);
            let t = trim_chars(c.as_slice());
            let s = from_chars(t.as_slice());
            parse_enabled_flag(Some(s.as_str()))
        },
        None => file_default,
    }
}

/// A set, non-blank override, trimmed.
pub open spec fn nonempty(raw: Option<Seq<char>>) -> Option<Seq<char>> {
    match raw {
        Some(v) => if trim(v).len() > 0 {
            Some(trim(v))
        } else {
            None
        },
        None => None,
    }
}

fn env_nonempty(raw: Option<&str>) -> (r: Option<Vec<char>>)
    ensures
        match r {
            Some(v) => nonempty(opt_view(raw)) == Some(v@),
            None => nonempty(opt_view(raw)) is None,
        },
{
    match raw {
        Some(v) => {
            let c = to_chars(v);
            let t = trim_chars(c.as_slice());
            if t.len() > 0 {
                Some(t)
            } else {
                None
            }
        },
        None => None,
    }
}

/// A positive `u64` override, if the variable is set, non-blank and parses.
pub open spec fn positive_u64(raw: Option<Seq<char>>) -> Option<u64> {
    match nonempty(raw) {
        Some(v) => match parse_u64_spec(v) {
            Some(n) => if n > 0 {
                Some(n)
            } else {
                None
            },
            None => None,
        },
        None => None,
    }
}

/// A positive `i64` override, if the variable is set, non-blank and parses.
pub open spec fn positive_i64(raw: Option<Seq<char>>) -> Option<i64> {
    match nonempty(raw) {
        Some(v) => match parse_i64_spec(v) {
            Some(n) => if n > 0 {
                Some(n)
            } else {
                None
            },
            None => None,
        },
        None => None,
    }
}

fn positive_u64_override(raw: Option<&str>) -> (r: Option<u64>)
    ensures
        r == positive_u64(opt_view(raw)),
{
    match env_nonempty(raw) {
        Some(v) => match parse_u64(v.as_slice()) {
            Some(n) => if n > 0 {
                Some(n)
            } else {
                None
            },
            None => None,
        },
        None => None,
    }
}

fn positive_i64_override(raw: Option<&str>) -> (r: Option<i64>)
    ensures
        r == positive_i64(opt_view(raw)),
{
    match env_nonempty(raw) {
        Some(v) => match parse_i64(v.as_slice()) {
            Some(n) => if n > 0 {
                Some(n)
            } else {
                None
            },
            None => None,
        },
        None => None,
    }
}

pub open spec fn min_u64(a: u64, b: u64) -> u64 {
    if a < b {
        a
    } else {
        b
    }
}

pub open spec fn min_i64(a: i64, b: i64) -> i64 {
    if a < b {
        a
    } else {
        b
    }
}

// ---------------------------------------------------------------------------
// Telegram resolution
// ---------------------------------------------------------------------------

/// Raw values of the Telegram environment overrides (`None` when unset):
/// `TRADING_TELEGRAM_DELIVERY`, `TRADING_TELEGRAM_COMMANDS`,
/// `TELEGRAM_BOT_TOKEN`, `TELEGRAM_CHAT_ID`, `TELEGRAM_CHAT_ALLOWLIST`,
/// `TRADING_TELEGRAM_POLL_SECS`, `TRADING_TELEGRAM_BATCH_LIMIT`.
pub struct TelegramEnv {
    pub delivery: Option<String>,
    pub commands: Option<String>,
    pub bot_token: Option<String>,
    pub chat_id: Option<String>,
    pub chat_allowlist: Option<String>,
    pub poll_secs: Option<String>,
    pub batch_limit: Option<String>,
}

impl Default for TelegramEnv {
    fn default() -> (r: Self)
        ensures
            r.delivery is None,
            r.commands is None,
            r.bot_token is None,
            r.chat_id is None,
            r.chat_allowlist is None,
            r.poll_secs is None,
            r.batch_limit is None,
    {
        TelegramEnv {
            delivery: None,
            commands: None,
            bot_token: None,
            chat_id: None,
            chat_allowlist: None,
            poll_secs: None,
            batch_limit: None,
        }
    }
}

pub open spec fn opt_string_view(raw: Option<String>) -> Option<Seq<char>> {
    match raw {
        Some(v) => Some(v@),
        None => None,
    }
}

/// Runtime Telegram settings after merging the mounted file with overrides.
pub struct ResolvedTelegram {
    pub delivery_enabled: bool,
    pub commands_enabled: bool,
    pub bot_token: Secret,
    pub chat_id: Secret,
    /// Primary chat id plus optional allowlist entries.
    pub allowlist: Vec<String>,
    pub poll_interval_secs: u64,
    pub batch_limit: i64,
    pub http_timeout_secs: u64,
}

/// Allowlist after one more comma-separated piece: trimmed, skipped when
/// blank or already present.
pub open spec fn allow_step(list: Seq<Seq<char>>, piece: Seq<char>) -> Seq<Seq<char>> {
    let t = trim(piece);
    if t.len() > 0 && !list.contains(t) {
        list.push(t)
    } else {
        list
    }
}

pub open spec fn allow_fold(list: Seq<Seq<char>>, pieces: Seq<Seq<char>>) -> Seq<Seq<char>>
    decreases pieces.len(),
{
    if pieces.len() == 0 {
        list
    } else {
        allow_step(allow_fold(list, pieces.drop_last()), pieces.last())
    }
}

/// Allowed chats: the primary chat (when set), then the override list's
/// pieces in order, deduplicated.
pub open spec fn allowlist_spec(chat_id: Seq<char>, extra: Option<Seq<char>>) -> Seq<Seq<char>> {
    let start = if chat_id.len() > 0 {
        seq![chat_id]
    } else {
        Seq::<Seq<char>>::empty()
    };
    match nonempty(extra) {
        Some(e) => allow_fold(start, split_seq(e, ',')),
        None => start,
    }
}

pub open spec fn string_views(v: Seq<String>) -> Seq<Seq<char>> {
    Seq::new(v.len(), |i: int| v[i]@)
}

/// Bot token: the override when set and non-blank, else the trimmed file value.
pub open spec fn resolved_token(cfg: TelegramConfig, env: TelegramEnv) -> Seq<char> {
    match nonempty(opt_string_view(env.bot_token)) {
        Some(t) => t,
        None => trim(cfg.bot_token@),
    }
}

/// Primary chat: the override when set and non-blank, else the trimmed file value.
pub open spec fn resolved_chat(cfg: TelegramConfig, env: TelegramEnv) -> Seq<char> {
    match nonempty(opt_string_view(env.chat_id)) {
        Some(c) => c,
        None => trim(cfg.chat_id@),
    }
}

/// Poll interval: a positive override, else a positive file value, capped at
/// 600 s; 30 s when neither is positive.
pub open spec fn resolved_poll(cfg: TelegramConfig, env: TelegramEnv) -> u64 {
    match positive_u64(opt_string_view(env.poll_secs)) {
        Some(n) => min_u64(n, MAX_TELEGRAM_POLL_SECS),
        None => if cfg.poll_secs > 0 {
            min_u64(cfg.poll_secs, MAX_TELEGRAM_POLL_SECS)
        } else {
            DEFAULT_TELEGRAM_POLL_SECS
        },
    }
}

/// Batch limit: a positive override, else a positive file value, capped at
/// 100; 20 when neither is positive.
pub open spec fn resolved_batch(cfg: TelegramConfig, env: TelegramEnv) -> i64 {
    match positive_i64(opt_string_view(env.batch_limit)) {
        Some(n) => min_i64(n, MAX_TELEGRAM_BATCH_LIMIT),
        None => if cfg.batch_limit > 0 {
            min_i64(cfg.batch_limit, MAX_TELEGRAM_BATCH_LIMIT)
        } else {
            DEFAULT_TELEGRAM_BATCH_LIMIT
        },
    }
}

fn as_opt_str(v: &Option<String>) -> (r: Option<&str>)
    ensures
        opt_view(r) == opt_string_view(*v),
{
    match v {
        Some(s) => Some(s.as_str()),
        None => None,
    }
}

fn contains_name(list: &Vec<String>, t: &[char]) -> (r: bool)
    ensures
        r == string_views(list@).contains(t@),
{
    let mut i: usize = 0;
    while i < list.len()
        invariant
            i <= list@.len(),
            forall|k: int| 0 <= k < i ==> list@[k]@ != t@,
        decreases list@.len() - i,
    {
        let c = to_chars(list[i].as_str());
        if crate::text::chars_eq(c.as_slice(), t) {
            assert(string_views(list@)[i as int] == t@);
            return true;
        }
        i = i + 1;
    }
    proof {
        if string_views(list@).contains(t@) {
            let k = choose|k: int| 0 <= k < string_views(list@).len() && string_views(list@)[k]
                == t@;
            assert(list@[k]@ == t@);
        }
    }
    false
}

fn build_allowlist(chat_id: &[char], extra: Option<&str>) -> (r: Vec<String>)
    ensures
        string_views(r@) == allowlist_spec(chat_id@, opt_view(extra)),
{
    let mut list: Vec<String> = Vec::new();
    if chat_id.len() > 0 {
        list.push(from_chars(chat_id));
    }
    let ghost start = string_views(list@);
    assert(start =~= (if chat_id@.len() > 0 {
        seq![chat_id@]
    } else {
        Seq::<Seq<char>>::empty()
    }));
    match env_nonempty(extra) {
        None => {},
        Some(e) => {
            let parts = split_on(e.as_slice(), ',');
            let mut i: usize = 0;
            while i < parts.len()
                invariant
                    i <= parts@.len(),
                    views(parts@) == split_seq(e@, ','),
                    string_views(list@) == allow_fold(start, views(parts@).subrange(0, i as int)),
                decreases parts@.len() - i,
            {
                let ghost prev = string_views(list@);
                assert(views(parts@).subrange(0, i + 1).drop_last() =~= views(parts@).subrange(
                    0,
                    i as int,
                ));
                let t = trim_chars(parts[i].as_slice());
                if t.len() > 0 && !contains_name(&list, t.as_slice()) {
                    list.push(from_chars(t.as_slice()));
                    assert(string_views(list@) =~= prev.push(t@));
                }
                i = i + 1;
            }
            assert(views(parts@).subrange(0, parts@.len() as int) =~= views(parts@));
        },
    }
    list
}

impl ResolvedTelegram {
    /// A bot token and at least one allowed chat.
    pub fn credentials_ok(&self) -> (r: bool)
        ensures
            r == (self.bot_token@.len() > 0 && self.allowlist@.len() > 0),
    {
        !self.bot_token.is_empty() && self.allowlist.len() > 0
    }

    pub fn bot_token(&self) -> (r: &str)
        ensures
            r@ == self.bot_token@,
    {
        self.bot_token.expose()
    }

    pub fn primary_chat_id(&self) -> (r: &str)
        ensures
            r@ == self.chat_id@,
    {
        self.chat_id.expose()
    }

    pub fn chat_allowed(&self, chat_id: &str) -> (r: bool)
        ensures
            r == string_views(self.allowlist@).contains(chat_id@),
    {
        let c = to_chars(chat_id);
        contains_name(&self.allowlist, c.as_slice())
    }

    /// Debug rendering: flags, allowlist size and durations only.
    pub fn debug_string(&self) -> (r: String)
        ensures
            r@ == "ResolvedTelegram { delivery_enabled: "@ + (if self.delivery_enabled {
                "true"@
            } else {
                "false"@
            }) + ", commands_enabled: "@ + (if self.commands_enabled {
                "true"@
            } else {
                "false"@
            }) + ", bot_token: \"[redacted]\", chat_id: \"[redacted]\", allowlist_len: "@
                + crate::num::dec(self.allowlist@.len()) + ", poll_interval: "@ + crate::num::dec(
                self.poll_interval_secs as nat,
            ) + "s, batch_limit: "@ + crate::num::dec_int(self.batch_limit as int)
                + ", http_timeout: "@ + crate::num::dec(self.http_timeout_secs as nat) + "s }"@,
    {
        let mut r = owned("ResolvedTelegram { delivery_enabled: ");
        r.append(bool_text(self.delivery_enabled));
        r.append(", commands_enabled: ");
        r.append(bool_text(self.commands_enabled));
        r.append(", bot_token: \"[redacted]\", chat_id: \"[redacted]\", allowlist_len: ");
        let n = crate::num::u64_to_string(self.allowlist.len() as u64);
        r.append(n.as_str());
        r.append(", poll_interval: ");
        let p = crate::num::u64_to_string(self.poll_interval_secs);
        r.append(p.as_str());
        r.append("s, batch_limit: ");
        let b = crate::num::i64_to_string(self.batch_limit);
        r.append(b.as_str());
        r.append(", http_timeout: ");
        let h = crate::num::u64_to_string(self.http_timeout_secs);
        r.append(h.as_str());
        r.append("s }");
        r
    }
}

impl TelegramConfig {
    /// Merge file values with the environment overrides.
    pub fn resolve(&self, env: &TelegramEnv) -> (r: ResolvedTelegram)
        ensures
            r.delivery_enabled == flag_or(opt_string_view(env.delivery), self.delivery_enabled),
            r.commands_enabled == flag_or(opt_string_view(env.commands), self.commands_enabled),
            r.bot_token@ == resolved_token(*self, *env),
            r.chat_id@ == resolved_chat(*self, *env),
            string_views(r.allowlist@) == allowlist_spec(
                resolved_chat(*self, *env),
                opt_string_view(env.chat_allowlist),
            ),
            r.poll_interval_secs == resolved_poll(*self, *env),
            r.batch_limit == resolved_batch(*self, *env),
            r.http_timeout_secs == TELEGRAM_HTTP_TIMEOUT_SECS,
    {
        let delivery_enabled = env_flag_or(as_opt_str(&env.delivery), self.delivery_enabled);
        let commands_enabled = env_flag_or(as_opt_str(&env.commands), self.commands_enabled);
        let token = match env_nonempty(as_opt_str(&env.bot_token)) {
            Some(t) => t,
            None => {
                let c = to_chars(self.bot_token.as_str());
                trim_chars(c.as_slice())
            },
        };
        let chat = match env_nonempty(as_opt_str(&env.chat_id)) {
            Some(t) => t,
            None => {
                let c = to_chars(self.chat_id.as_str());
                trim_chars(c.as_slice())
            },
        };
        let allowlist = build_allowlist(chat.as_slice(), as_opt_str(&env.chat_allowlist));
        let poll = match positive_u64_override(as_opt_str(&env.poll_secs)) {
            Some(n) => if n < MAX_TELEGRAM_POLL_SECS {
                n
            } else {
                MAX_TELEGRAM_POLL_SECS
            },
            None => if self.poll_secs > 0 {
                if self.poll_secs < MAX_TELEGRAM_POLL_SECS {
                    self.poll_secs
                } else {
                    MAX_TELEGRAM_POLL_SECS
                }
            } else {
                DEFAULT_TELEGRAM_POLL_SECS
            },
        };
        let batch = match positive_i64_override(as_opt_str(&env.batch_limit)) {
            Some(n) => if n < MAX_TELEGRAM_BATCH_LIMIT {
                n
            } else {
                MAX_TELEGRAM_BATCH_LIMIT
            },
            None => if self.batch_limit > 0 {
                if self.batch_limit < MAX_TELEGRAM_BATCH_LIMIT {
                    self.batch_limit
                } else {
                    MAX_TELEGRAM_BATCH_LIMIT
                }
            } else {
                DEFAULT_TELEGRAM_BATCH_LIMIT
            },
        };
        ResolvedTelegram {
            delivery_enabled,
            commands_enabled,
            bot_token: Secret::new(from_chars(token.as_slice())),
            chat_id: Secret::new(from_chars(chat.as_slice())),
            allowlist,
            poll_interval_secs: poll,
            batch_limit: batch,
            http_timeout_secs: TELEGRAM_HTTP_TIMEOUT_SECS,
        }
    }
}

// ---------------------------------------------------------------------------
// Alerts cadence
// ---------------------------------------------------------------------------

/// Evaluation and reconcile intervals: a set positive override wins; the
/// reconcile interval is capped at 3600 s; non-positive file values fall
/// back to the defaults.
pub open spec fn intervals_spec(
    cfg: AlertsConfig,
    eval_raw: Option<Seq<char>>,
    rest_raw: Option<Seq<char>>,
) -> (u64, u64) {
    let eval = match positive_u64(eval_raw) {
        Some(n) => n,
        None => if cfg.eval_interval_secs > 0 {
            cfg.eval_interval_secs
        } else {
            DEFAULT_EVAL_INTERVAL_SECS
        },
    };
    let rest = match positive_u64(rest_raw) {
        Some(n) => min_u64(n, MAX_REST_RECONCILE_SECS),
        None => if cfg.rest_reconcile_secs > 0 {
            min_u64(cfg.rest_reconcile_secs, MAX_REST_RECONCILE_SECS)
        } else {
            DEFAULT_REST_RECONCILE_SECS
        },
    };
    (eval, rest)
}

impl AlertsConfig {
    /// `evaluator_enabled` after the optional `TRADING_ALERT_EVALUATOR`
    /// override (`raw` is its value when set).
    pub fn resolve_enabled(&self, raw: Option<&str>) -> (r: bool)
        ensures
            r == flag_or(opt_view(raw), self.evaluator_enabled),
    {
        env_flag_or(raw, self.evaluator_enabled)
    }

    /// `(eval, reconcile)` seconds after the optional
    /// `TRADING_ALERT_EVAL_INTERVAL_SECS` / `TRADING_ALERT_REST_RECONCILE_SECS`
    /// overrides.
    pub fn resolve_intervals(&self, eval_raw: Option<&str>, rest_raw: Option<&str>) -> (r: (
        u64,
        u64,
    ))
        ensures
            r == intervals_spec(*self, opt_view(eval_raw), opt_view(rest_raw)),
    {
        let eval = match positive_u64_override(eval_raw) {
            Some(n) => n,
            None => if self.eval_interval_secs > 0 {
                self.eval_interval_secs
            } else {
                DEFAULT_EVAL_INTERVAL_SECS
            },
        };
        let rest = match positive_u64_override(rest_raw) {
            Some(n) => if n < MAX_REST_RECONCILE_SECS {
                n
            } else {
                MAX_REST_RECONCILE_SECS
            },
            None => if self.rest_reconcile_secs > 0 {
                if self.rest_reconcile_secs < MAX_REST_RECONCILE_SECS {
                    self.rest_reconcile_secs
                } else {
                    MAX_REST_RECONCILE_SECS
                }
            } else {
                DEFAULT_REST_RECONCILE_SECS
            },
        };
        (eval, rest)
    }
}


pub open spec fn distinct(list: Seq<Seq<char>>) -> bool {
    forall|a: int, b: int| 0 <= a < b < list.len() ==> list[a] != list[b]
}

proof fn lemma_allow_fold_distinct(start: Seq<Seq<char>>, pieces: Seq<Seq<char>>)
    requires
        distinct(start),
    ensures
        distinct(allow_fold(start, pieces)),
        forall|i: int|
            0 <= i < allow_fold(start, pieces).len() ==> (#[trigger] allow_fold(start, pieces)[i]).len()
                > 0 || exists|k: int| 0 <= k < start.len() && start[k] == allow_fold(start, pieces)[i],
    decreases pieces.len(),
{
    if pieces.len() > 0 {
        let prev = allow_fold(start, pieces.drop_last());
        lemma_allow_fold_distinct(start, pieces.drop_last());
        let t = trim(pieces.last());
        if t.len() > 0 && !prev.contains(t) {
            let next = prev.push(t);
            assert forall|a: int, b: int| 0 <= a < b < next.len() implies next[a] != next[b] by {
                if b == next.len() - 1 {
                    assert(prev[a] == next[a]);
                    if next[a] == t {
                        assert(prev.contains(t));
                    }
                }
            }
            assert forall|i: int| 0 <= i < next.len() implies (#[trigger] next[i]).len() > 0 || exists|
                k: int,
            |
                0 <= k < start.len() && start[k] == next[i] by {
                if i < prev.len() {
                    assert(prev[i] == next[i]);
                }
            }
        }
    }
}

/// The allowlist never names a chat twice, and holds no blank id.
pub proof fn lemma_allowlist_distinct(chat_id: Seq<char>, extra: Option<Seq<char>>)
    ensures
        distinct(allowlist_spec(chat_id, extra)),
        forall|i: int|
            0 <= i < allowlist_spec(chat_id, extra).len() ==> (#[trigger] allowlist_spec(
                chat_id,
                extra,
            )[i]).len() > 0,
{
    let start = if chat_id.len() > 0 {
        seq![chat_id]
    } else {
        Seq::<Seq<char>>::empty()
    };
    match nonempty(extra) {
        Some(e) => {
            lemma_allow_fold_distinct(start, split_seq(e, ','));
        },
        None => {},
    }
}

/// Membership of a folded allowlist: what was there, or a non-blank trimmed
/// piece.
proof fn lemma_allow_fold_members(start: Seq<Seq<char>>, pieces: Seq<Seq<char>>, x: Seq<char>)
    ensures
        allow_fold(start, pieces).contains(x) <==> (start.contains(x) || exists|j: int|
            0 <= j < pieces.len() && trim(#[trigger] pieces[j]) == x && x.len() > 0),
    decreases pieces.len(),
{
    if pieces.len() > 0 {
        let init = pieces.drop_last();
        lemma_allow_fold_members(start, init, x);
        let prev = allow_fold(start, init);
        let t = trim(pieces.last());
        if allow_fold(start, pieces).contains(x) {
            if !prev.contains(x) {
                assert(t.len() > 0 && !prev.contains(t));
                let k = choose|k: int| 0 <= k < prev.push(t).len() && prev.push(t)[k] == x;
                assert(k == prev.len());
                assert(pieces[pieces.len() - 1] == pieces.last());
            } else if !start.contains(x) {
                let j = choose|j: int| 0 <= j < init.len() && trim(#[trigger] init[j]) == x && x.len() > 0;
                assert(init[j] == pieces[j]);
            }
        }
        if start.contains(x) || exists|j: int|
            0 <= j < pieces.len() && trim(#[trigger] pieces[j]) == x && x.len() > 0 {
            if !start.contains(x) {
                let j = choose|j: int| 0 <= j < pieces.len() && trim(#[trigger] pieces[j]) == x && x.len() > 0;
                if j < init.len() {
                    assert(init[j] == pieces[j]);
                } else {
                    assert(pieces[j] == pieces.last());
                    if !prev.contains(x) {
                        assert(prev.push(t)[prev.len() as int] == x);
                    }
                }
            }
            if prev.contains(x) {
                let k = choose|k: int| 0 <= k < prev.len() && prev[k] == x;
                if t.len() > 0 && !prev.contains(t) {
                    assert(prev.push(t)[k] == x);
                }
            }
        }
    }
}

/// Exactly these chats are allowed: the primary chat when set, and every
/// non-blank trimmed entry of the override list.
pub proof fn lemma_allowlist_members(chat_id: Seq<char>, extra: Option<Seq<char>>, x: Seq<char>)
    ensures
        allowlist_spec(chat_id, extra).contains(x) <==> ((chat_id.len() > 0 && x == chat_id) || (
        match nonempty(extra) {
            Some(e) => exists|j: int|
                0 <= j < split_seq(e, ',').len() && trim(#[trigger] split_seq(e, ',')[j]) == x
                    && x.len() > 0,
            None => false,
        })),
{
    let start = if chat_id.len() > 0 {
        seq![chat_id]
    } else {
        Seq::<Seq<char>>::empty()
    };
    if start.contains(x) {
        let k = choose|k: int| 0 <= k < start.len() && start[k] == x;
        assert(k == 0);
    }
    if chat_id.len() > 0 && x == chat_id {
        assert(start[0] == x);
    }
    match nonempty(extra) {
        Some(e) => {
            lemma_allow_fold_members(start, split_seq(e, ','), x);
        },
        None => {},
    }
}


/// Folding pieces into an allowlist keeps what was there, in place, and adds
/// only trimmed ids.
proof fn lemma_allow_fold_keeps(start: Seq<Seq<char>>, pieces: Seq<Seq<char>>)
    ensures
        allow_fold(start, pieces).len() >= start.len(),
        forall|i: int| 0 <= i < start.len() ==> #[trigger] allow_fold(start, pieces)[i] == start[i],
        (forall|i: int| 0 <= i < start.len() ==> trim(#[trigger] start[i]) == start[i]) ==> (
        forall|i: int|
            0 <= i < allow_fold(start, pieces).len() ==> trim(#[trigger] allow_fold(start, pieces)[i])
                == allow_fold(start, pieces)[i]),
    decreases pieces.len(),
{
    if pieces.len() > 0 {
        let prev = allow_fold(start, pieces.drop_last());
        lemma_allow_fold_keeps(start, pieces.drop_last());
        lemma_trim_idempotent(pieces.last());
        assert(allow_fold(start, pieces) == allow_step(prev, pieces.last()));
    }
}

/// Resolved Telegram settings always have a poll interval of 1 to 600 s, a
/// batch limit of 1 to 100 and a trimmed primary chat id; the allowlist holds
/// distinct, non-blank, trimmed ids and starts with the primary chat id when
/// one is set.
pub proof fn lemma_resolved_telegram_bounds(cfg: TelegramConfig, env: TelegramEnv)
    ensures
        1 <= resolved_poll(cfg, env) <= MAX_TELEGRAM_POLL_SECS,
        1 <= resolved_batch(cfg, env) <= MAX_TELEGRAM_BATCH_LIMIT,
        trim(resolved_chat(cfg, env)) == resolved_chat(cfg, env),
        distinct(allowlist_spec(resolved_chat(cfg, env), opt_string_view(env.chat_allowlist))),
        forall|i: int|
            0 <= i < allowlist_spec(resolved_chat(cfg, env), opt_string_view(env.chat_allowlist)).len()
                ==> {
                let x = #[trigger] allowlist_spec(
                    resolved_chat(cfg, env),
                    opt_string_view(env.chat_allowlist),
                )[i];
                x.len() > 0 && trim(x) == x
            },
        resolved_chat(cfg, env).len() > 0 ==> {
            let list = allowlist_spec(resolved_chat(cfg, env), opt_string_view(env.chat_allowlist));
            list.len() > 0 && list[0] == resolved_chat(cfg, env)
        },
{
    let chat = resolved_chat(cfg, env);
    let extra = opt_string_view(env.chat_allowlist);
    match opt_string_view(env.chat_id) {
        Some(v) => lemma_trim_idempotent(v),
        None => {},
    }
    lemma_trim_idempotent(cfg.chat_id@);
    assert(trim(chat) == chat);
    lemma_allowlist_distinct(chat, extra);
    let start = if chat.len() > 0 {
        seq![chat]
    } else {
        Seq::<Seq<char>>::empty()
    };
    assert forall|i: int| 0 <= i < start.len() implies trim(#[trigger] start[i]) == start[i] by {
        assert(start[i] == chat);
    }
    match nonempty(extra) {
        Some(e) => {
            lemma_allow_fold_keeps(start, split_seq(e, ','));
        },
        None => {},
    }
    if chat.len() > 0 {
        assert(start[0] == chat);
    }
}


/// A chat is allowed exactly when its id is non-empty and is the primary chat
/// id, or equals a trimmed comma-separated piece of the raw allowlist
/// override; matching is exact and case-sensitive.
pub proof fn lemma_chat_allowed_raw(cfg: TelegramConfig, env: TelegramEnv, x: Seq<char>)
    ensures
        allowlist_spec(resolved_chat(cfg, env), opt_string_view(env.chat_allowlist)).contains(x)
            <==> (x.len() > 0 && (x == resolved_chat(cfg, env) || match opt_string_view(
            env.chat_allowlist,
        ) {
            Some(raw) => exists|j: int|
                0 <= j < split_seq(raw, ',').len() && trim(#[trigger] split_seq(raw, ',')[j]) == x,
            None => false,
        })),
{
    let chat = resolved_chat(cfg, env);
    let extra = opt_string_view(env.chat_allowlist);
    lemma_allowlist_members(chat, extra, x);
    match extra {
        Some(raw) => {
            lemma_split_trimmed_pieces(raw, ',');
            let p = split_seq(raw, ',');
            let q = split_seq(trim(raw), ',');
            if trim(raw).len() > 0 {
                if exists|j: int| 0 <= j < p.len() && trim(#[trigger] p[j]) == x {
                    let j = choose|j: int| 0 <= j < p.len() && trim(#[trigger] p[j]) == x;
                    assert(trim(q[j]) == x);
                }
                if exists|j: int| 0 <= j < q.len() && trim(#[trigger] q[j]) == x && x.len() > 0 {
                    let j = choose|j: int|
                        0 <= j < q.len() && trim(#[trigger] q[j]) == x && x.len() > 0;
                    assert(trim(p[j]) == x);
                }
            } else {
                assert(trim(raw) =~= Seq::<char>::empty());
                assert(q == seq![Seq::<char>::empty()]);
                assert(trim(Seq::<char>::empty()) =~= Seq::<char>::empty());
                assert forall|j: int| 0 <= j < p.len() implies trim(#[trigger] p[j]).len() == 0 by {
                    assert(trim(p[j]) == trim(q[j]));
                }
            }
        },
        None => {},
    }
}

} // verus!
