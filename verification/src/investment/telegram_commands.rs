//! Telegram inbound commands: `/status`, `/cash`, `/watches`, `/help` from
//! allowlisted chats only. No trade or order commands exist.
//!
//! Polling and replying are done by the caller; this module decides what an
//! update asks for and what the poller does next.
use vstd::prelude::*;
use std::collections::HashSet;
use crate::investment::config::{env_flag_or, flag_or, opt_view, ResolvedTelegram};
use crate::investment::secret::{ChatAllowlist, Secret, string_views};
use crate::investment::telegram_outbox::{
    http_error, http_error_spec, ok_flag, reply_description, sanitize_spec, sanitize_telegram_error,
};
use crate::json::{
    as_i64, as_i64_spec, as_str, as_str_spec, get, get_i64, get_spec, get_str, i64_member, str_member,
    Json,
};
use crate::text::{
    before, before_char, before_whitespace, before_ws, eq_lit, has_prefix, is_ws, lemma_before_ws_word,
    lemma_first_word, lemma_trim_idempotent, owned, str_eq, to_chars, trim, trim_chars, trim_end,
    trim_start,
};

verus! {

broadcast use vstd::std_specs::hash::group_hash_axioms;

/// Long-poll timeout for `getUpdates` (seconds).
pub const DEFAULT_LONG_POLL_SECS: u64 = 25;

/// Backoff after the first failed poll (seconds).
pub const DEFAULT_POLL_FAILURE_BACKOFF_SECS: u64 = 5;

/// Cap on the poll failure backoff (seconds).
pub const MAX_POLL_FAILURE_BACKOFF_SECS: u64 = 300;

/// The remembered update ids are dropped once there are more than this many.
pub const MAX_SEEN_UPDATES: usize = 2000;

/// Runtime config of the inbound commands worker.
pub struct TelegramCommandsConfig {
    pub bot_token: Secret,
    pub allowlist: ChatAllowlist,
    pub http_timeout_secs: u64,
    pub long_poll_timeout_secs: u64,
}

/// Long-poll timeout: the poll interval (at least 1 s), at most 25 s.
pub open spec fn long_poll_spec(poll_interval_secs: u64) -> u64 {
    let p = if poll_interval_secs < 1 {
        1
    } else {
        poll_interval_secs
    };
    if DEFAULT_LONG_POLL_SECS < p {
        DEFAULT_LONG_POLL_SECS
    } else {
        p
    }
}

impl TelegramCommandsConfig {
    /// From the resolved settings; `None` without credentials. The request
    /// timeout covers the long poll plus 5 s on top of the HTTP timeout.
    pub fn from_resolved(resolved: &ResolvedTelegram) -> (r: Option<TelegramCommandsConfig>)
        requires
            resolved.http_timeout_secs + long_poll_spec(resolved.poll_interval_secs) + 5 <= u64::MAX,
        ensures
            match r {
                None => !(resolved.bot_token@.len() > 0 && resolved.allowlist@.len() > 0),
                Some(c) => resolved.bot_token@.len() > 0 && resolved.allowlist@.len() > 0
                    && c.bot_token@ == resolved.bot_token@ && c.allowlist@ == string_views(
                    resolved.allowlist@,
                ) && c.long_poll_timeout_secs == long_poll_spec(resolved.poll_interval_secs)
                    && c.http_timeout_secs == resolved.http_timeout_secs + long_poll_spec(
                    resolved.poll_interval_secs,
                ) + 5,
            },
    {
        if !resolved.credentials_ok() {
            return None;
        }
        let p = if resolved.poll_interval_secs < 1 {
            1
        } else {
            resolved.poll_interval_secs
        };
        let long_poll = if DEFAULT_LONG_POLL_SECS < p {
            DEFAULT_LONG_POLL_SECS
        } else {
            p
        };
        let mut ids: Vec<String> = Vec::new();
        let mut i: usize = 0;
        while i < resolved.allowlist.len()
            invariant
                i <= resolved.allowlist@.len(),
                ids@.len() == i,
                forall|k: int| 0 <= k < i ==> (#[trigger] ids@[k])@ == resolved.allowlist@[k]@,
            decreases resolved.allowlist@.len() - i,
        {
            ids.push(resolved.allowlist[i].clone());
            i = i + 1;
        }
        assert(string_views(ids@) =~= string_views(resolved.allowlist@));
        Some(
            TelegramCommandsConfig {
                bot_token: resolved.bot_token.duplicate(),
                allowlist: ChatAllowlist::new(ids),
                http_timeout_secs: resolved.http_timeout_secs + long_poll + 5,
                long_poll_timeout_secs: long_poll,
            },
        )
    }

    pub fn chat_allowed(&self, chat_id: &str) -> (r: bool)
        ensures
            r == self.allowlist@.contains(chat_id@),
    {
        self.allowlist.contains(chat_id)
    }

    /// Debug rendering: allowlist size and timeouts only.
    pub fn debug_string(&self) -> (r: String)
        ensures
            r@ == "TelegramCommandsConfig { bot_token: \"[redacted]\", allowlist_len: "@
                + crate::num::dec(self.allowlist@.len()) + ", http_timeout: "@ + crate::num::dec(
                self.http_timeout_secs as nat,
            ) + "s, long_poll_timeout_secs: "@ + crate::num::dec(
                self.long_poll_timeout_secs as nat,
            ) + " }"@,
    {
        let mut r = owned("TelegramCommandsConfig { bot_token: \"[redacted]\", allowlist_len: ");
        let n = crate::num::u64_to_string(self.allowlist.len() as u64);
        r.append(n.as_str());
        r.append(", http_timeout: ");
        let h = crate::num::u64_to_string(self.http_timeout_secs);
        r.append(h.as_str());
        r.append("s, long_poll_timeout_secs: ");
        let l = crate::num::u64_to_string(self.long_poll_timeout_secs);
        r.append(l.as_str());
        r.append(" }");
        r
    }
}

/// Legacy gate from `TRADING_TELEGRAM_COMMANDS` (`raw` is its value when set).
pub fn telegram_commands_enabled(raw: Option<&str>) -> (r: bool)
    ensures
        r == flag_or(opt_view(raw), false),
{
    env_flag_or(raw, false)
}

#[derive(Clone, Copy, Debug, PartialEq, Eq, Structural)]
pub enum TelegramCommand {
    Status,
    Cash,
    Watches,
    Help,
}

/// The command a message asks for: its first word, without an `@BotName`
/// suffix, must be one of the four commands.
pub open spec fn parse_command_spec(text: Seq<char>) -> Option<TelegramCommand> {
    let t = trim(text);
    if t.len() == 0 {
        None
    } else {
        command_named(before_char(before_ws(t), '@'))
    }
}

/// The command with exactly this name.
pub open spec fn command_named(base: Seq<char>) -> Option<TelegramCommand> {
    if base == "/status"@ {
        Some(TelegramCommand::Status)
    } else if base == "/cash"@ {
        Some(TelegramCommand::Cash)
    } else if base == "/watches"@ {
        Some(TelegramCommand::Watches)
    } else if base == "/help"@ {
        Some(TelegramCommand::Help)
    } else {
        None
    }
}

/// Only the first whitespace-separated word of a message counts: with no
/// word there is no command; otherwise its part before the first `@` must
/// name a command exactly (case-sensitive). Surrounding whitespace and later
/// words change nothing.
pub proof fn lemma_parse_command_first_word(text: Seq<char>)
    ensures
        parse_command_spec(text) == (if before_ws(trim_start(text)).len() == 0 {
            None
        } else {
            command_named(before_char(before_ws(trim_start(text)), '@'))
        }),
        parse_command_spec(trim(text)) == parse_command_spec(text),
        parse_command_spec(before_ws(trim_start(text))) == parse_command_spec(text),
{
    let w = before_ws(trim_start(text));
    lemma_first_word(text);
    lemma_trim_idempotent(text);
    lemma_before_ws_word(trim_start(text));
    if w.len() > 0 {
        assert(!is_ws(w[0]));
        assert(!is_ws(w.last()));
        assert(trim_start(w) == w);
        assert(trim_end(w) == w);
    }
}

/// Parse `/status`, `/cash`, `/watches`, `/help` (optional `@BotName`).
pub fn parse_command(text: &str) -> (r: Option<TelegramCommand>)
    ensures
        r == parse_command_spec(text@),
{
    let v = to_chars(text);
    let t = trim_chars(v.as_slice());
    if t.len() == 0 {
        return None;
    }
    let first = before_whitespace(t.as_slice());
    let base = before(first.as_slice(), '@');
    let b = base.as_slice();
    if eq_lit(b, "/status") {
        Some(TelegramCommand::Status)
    } else if eq_lit(b, "/cash") {
        Some(TelegramCommand::Cash)
    } else if eq_lit(b, "/watches") {
        Some(TelegramCommand::Watches)
    } else if eq_lit(b, "/help") {
        Some(TelegramCommand::Help)
    } else {
        None
    }
}

pub open spec fn help_text() -> Seq<char> {
    "/status — equity, cash, exposure, uPnL\n/cash — free vs locked\n/watches — enabled watches\n/help"@
}

/// The `/help` reply; it lists only the read-only commands.
pub fn format_help_reply() -> (r: String)
    ensures
        r@ == help_text(),
{
    owned(
        "/status — equity, cash, exposure, uPnL\n/cash — free vs locked\n/watches — enabled watches\n/help",
    )
}

/// Bot API `getUpdates` URL; it holds the token, so it is never logged.
pub fn get_updates_url(bot_token: &str) -> (r: String)
    ensures
        r@ == "https://api.telegram.org/bot"@ + bot_token@ + "/getUpdates"@,
{
    let mut r = owned("https://api.telegram.org/bot");
    r.append(bot_token);
    r.append("/getUpdates");
    r
}

// ---------------------------------------------------------------------------
// Update handling
// ---------------------------------------------------------------------------

/// A text message from a chat, as decoded from one update.
pub struct InboundMessage {
    pub update_id: i64,
    pub chat_id: String,
    pub text: String,
}

/// What to do with one update.
pub enum UpdateAction {
    /// Nothing to send; move the offset to `next` when present.
    Skip { offset: Option<i64> },
    /// Tell chat `chat_id` the command is unknown.
    ReplyUnknown { next: i64, chat_id: String },
    /// Build the command's reply and send it to chat `chat_id`.
    Run { command: TelegramCommand, next: i64, chat_id: String },
}

pub open spec fn update_action_spec(
    raw_update_id: Option<i64>,
    msg: Option<InboundMessage>,
    seen_before: bool,
    allowed: bool,
) -> UpdateAction {
    match msg {
        None => UpdateAction::Skip {
            offset: match raw_update_id {
                Some(id) => Some((id + 1) as i64),
                None => None,
            },
        },
        Some(m) => if seen_before || !allowed {
            UpdateAction::Skip { offset: Some((m.update_id + 1) as i64) }
        } else {
            match parse_command_spec(m.text@) {
                Some(c) => UpdateAction::Run {
                    command: c,
                    next: (m.update_id + 1) as i64,
                    chat_id: m.chat_id,
                },
                None => if has_prefix(trim(m.text@), "/"@) {
                    UpdateAction::ReplyUnknown { next: (m.update_id + 1) as i64, chat_id: m.chat_id }
                } else {
                    UpdateAction::Skip { offset: Some((m.update_id + 1) as i64) }
                },
            }
        },
    }
}

/// A reply (a command's answer or the unknown-command hint) is decided only
/// for a text message from an allowed chat whose update id was not seen
/// before, and goes to that message's chat; every decided update moves the
/// offset just past its id.
pub proof fn lemma_replies_only_to_new_allowed_messages(
    raw_update_id: Option<i64>,
    msg: Option<InboundMessage>,
    seen_before: bool,
    allowed: bool,
)
    ensures
        match update_action_spec(raw_update_id, msg, seen_before, allowed) {
            UpdateAction::Skip { offset } => offset == match msg {
                Some(m) => Some((m.update_id + 1) as i64),
                None => match raw_update_id {
                    Some(id) => Some((id + 1) as i64),
                    None => None,
                },
            },
            UpdateAction::ReplyUnknown { next, chat_id } => msg is Some && !seen_before && allowed
                && next == (msg->0.update_id + 1) as i64 && chat_id == msg->0.chat_id,
            UpdateAction::Run { command, next, chat_id } => msg is Some && !seen_before && allowed
                && next == (msg->0.update_id + 1) as i64 && chat_id == msg->0.chat_id
                && parse_command_spec(msg->0.text@) == Some(command),
        },
{
}

/// Decide one update and remember its id. An update that is not a text
/// message only moves the offset; a repeated id or a chat outside the
/// allowlist is consumed silently; an unknown `/` command gets a hint;
/// anything else that is not a command is ignored.
pub fn handle_update(
    cfg: &TelegramCommandsConfig,
    raw_update_id: Option<i64>,
    msg: Option<InboundMessage>,
    seen: &mut HashSet<i64>,
) -> (r: UpdateAction)
    requires
        match raw_update_id {
            Some(id) => id < i64::MAX,
            None => true,
        },
        match msg {
            Some(m) => m.update_id < i64::MAX,
            None => true,
        },
    ensures
        r == update_action_spec(
            raw_update_id,
            msg,
            match msg {
                Some(m) => old(seen)@.contains(m.update_id),
                None => false,
            },
            match msg {
                Some(m) => cfg.allowlist@.contains(m.chat_id@),
                None => false,
            },
        ),
        final(seen)@ == (match msg {
            Some(m) => old(seen)@.insert(m.update_id),
            None => old(seen)@,
        }),
{
    match msg {
        None => UpdateAction::Skip {
            offset: match raw_update_id {
                Some(id) => Some(id + 1),
                None => None,
            },
        },
        Some(m) => {
            let fresh = seen.insert(m.update_id);
            let next = m.update_id + 1;
            if !fresh {
                return UpdateAction::Skip { offset: Some(next) };
            }
            if !cfg.chat_allowed(m.chat_id.as_str()) {
                return UpdateAction::Skip { offset: Some(next) };
            }
            match parse_command(m.text.as_str()) {
                Some(c) => UpdateAction::Run { command: c, next, chat_id: m.chat_id },
                None => {
                    let v = to_chars(m.text.as_str());
                    let t = trim_chars(v.as_slice());
                    if t.len() > 0 && t[0] == '/' {
                        proof {
                            reveal_strlit("/");
                            assert(t@.subrange(0, 1) =~= "/"@);
                        }
                        UpdateAction::ReplyUnknown { next, chat_id: m.chat_id }
                    } else {
                        proof {
                            reveal_strlit("/");
                            if has_prefix(t@, "/"@) {
                                assert(t@.subrange(0, 1)[0] == t@[0]);
                            }
                        }
                        UpdateAction::Skip { offset: Some(next) }
                    }
                },
            }
        },
    }
}

/// After a batch: the remembered ids are dropped once there are more than
/// [`MAX_SEEN_UPDATES`].
pub fn trim_seen(seen: &mut HashSet<i64>)
    ensures
        old(seen)@.len() > MAX_SEEN_UPDATES ==> final(seen)@ == Set::<i64>::empty(),
        old(seen)@.len() <= MAX_SEEN_UPDATES ==> final(seen)@ == old(seen)@,
{
    if seen.len() > MAX_SEEN_UPDATES {
        seen.clear();
    }
}


// ---------------------------------------------------------------------------
// Decoding updates
// ---------------------------------------------------------------------------

/// Chat id of a message: an integer id in decimal, or a string id.
pub open spec fn chat_id_spec(id: Json) -> Option<Seq<char>> {
    match as_i64_spec(id) {
        Some(n) => Some(crate::num::dec_int(n as int)),
        None => as_str_spec(id),
    }
}

/// A text message of an update: `update_id`, `message.chat.id` and
/// `message.text` must all be present.
pub open spec fn inbound_spec(update: Json) -> Option<(i64, Seq<char>, Seq<char>)> {
    match i64_member(update, "update_id"@) {
        None => None,
        Some(uid) => match get_spec(update, "message"@) {
            None => None,
            Some(msg) => match get_spec(msg, "chat"@) {
                None => None,
                Some(chat) => match get_spec(chat, "id"@) {
                    None => None,
                    Some(id) => match chat_id_spec(id) {
                        None => None,
                        Some(cid) => match str_member(msg, "text"@) {
                            None => None,
                            Some(t) => Some((uid, cid, t)),
                        },
                    },
                },
            },
        },
    }
}

/// Decode the text message of one update, if it carries one.
pub fn parse_inbound(update: &Json) -> (r: Option<InboundMessage>)
    ensures
        match r {
            Some(m) => inbound_spec(*update) == Some((m.update_id, m.chat_id@, m.text@)),
            None => inbound_spec(*update) is None,
        },
{
    let update_id = match get_i64(update, "update_id") {
        Some(u) => u,
        None => {
            return None;
        },
    };
    let msg = match get(update, "message") {
        Some(m) => m,
        None => {
            return None;
        },
    };
    let chat = match get(msg, "chat") {
        Some(c) => c,
        None => {
            return None;
        },
    };
    let id = match get(chat, "id") {
        Some(i) => i,
        None => {
            return None;
        },
    };
    let chat_id = match as_i64(id) {
        Some(n) => crate::num::i64_to_string(n),
        None => match as_str(id) {
            Some(s) => owned(s),
            None => {
                return None;
            },
        },
    };
    let text = match get_str(msg, "text") {
        Some(t) => owned(t),
        None => {
            return None;
        },
    };
    Some(InboundMessage { update_id, chat_id, text })
}

/// `update_id` of an update that is not a text message.
pub fn raw_update_id(update: &Json) -> (r: Option<i64>)
    ensures
        r == i64_member(*update, "update_id"@),
{
    get_i64(update, "update_id")
}

/// Updates of a `getUpdates` reply: a non-success status, an undecodable
/// body or an `ok` other than `true` is an error; otherwise the `result`
/// array (empty when missing).
pub fn get_updates_outcome(
    status: u16,
    success: bool,
    body: &str,
    reply: Result<Json, String>,
    bot_token: &str,
) -> (r: Result<Vec<Json>, String>)
    ensures
        match r {
            Ok(v) => success && match reply {
                Ok(j) => ok_flag(j) == Some(true) && match get_spec(j, "result"@) {
                    Some(Json::Array(a)) => v@ == a@,
                    _ => v@.len() == 0,
                },
                Err(_) => false,
            },
            Err(e) => if !success {
                e@ == http_error_spec("getUpdates"@, status, body@, bot_token@)
            } else {
                match reply {
                    Err(je) => e@ == "telegram getUpdates JSON error: "@ + je@,
                    Ok(j) => ok_flag(j) != Some(true) && e@ == "telegram getUpdates rejected: "@
                        + sanitize_spec(reply_description(j), bot_token@),
                }
            },
        },
{
    if !success {
        return Err(http_error("getUpdates", status, body, bot_token));
    }
    let j = match reply {
        Err(je) => {
            let mut e = owned("telegram getUpdates JSON error: ");
            e.append(je.as_str());
            return Err(e);
        },
        Ok(j) => j,
    };
    let ok = match get(&j, "ok") {
        Some(Json::Bool(b)) => Some(*b),
        _ => None,
    };
    if ok != Some(true) {
        let d = match get_str(&j, "description") {
            Some(d) => owned(d),
            None => owned("ok=false"),
        };
        let mut e = owned("telegram getUpdates rejected: ");
        let s = sanitize_telegram_error(d.as_str(), bot_token);
        e.append(s.as_str());
        return Err(e);
    }
    let ghost jj = j;
    match j {
        Json::Object(mut m) => {
            let mut i: usize = 0;
            while i < m.len()
                invariant
                    i <= m@.len(),
                    jj == Json::Object(m),
                    success,
                    reply == Ok::<Json, String>(jj),
                    ok_flag(jj) == Some(true),
                    crate::json::member_index(m@.subrange(0, i as int), "result"@) is None,
                decreases m@.len() - i,
            {
                assert(m@.subrange(0, i + 1).drop_last() =~= m@.subrange(0, i as int));
                let is_result = str_eq(m[i].0.as_str(), "result");
                if is_result {
                    proof {
                        assert(m@.subrange(0, i + 1).last() == m@[i as int]);
                        crate::json::lemma_member_index_prefix(m@, "result"@, i + 1);
                    }
                    let (_, v) = m.remove(i);
                    return match v {
                        Json::Array(a) => Ok(a),
                        _ => Ok(Vec::new()),
                    };
                }
                i = i + 1;
            }
            assert(m@.subrange(0, m@.len() as int) =~= m@);
            Ok(Vec::new())
        },
        _ => Ok(Vec::new()),
    }
}

} // verus!
