//! Notification channel logic: MarkdownV2 escaping, the FIFO message
//! queue with its delayed-message annotation, and the texts sent when the
//! primary endpoint changes.
//!
//! The HTTP POST that delivers a message is outside the library; the queue
//! decides what to send and when an entry may be dropped.

use vstd::prelude::*;
use crate::endpoint::Endpoint;
use crate::text::{chars_to_string, dec_digits, dec_string, str_chars};

verus! {

use vstd::string::StringExecFns;

broadcast use vstd::string::group_string_axioms;

/// The characters MarkdownV2 assigns meaning to; each is escaped by a
/// preceding backslash.
pub open spec fn is_markdown_special(c: char) -> bool {
    ||| c == '_'
    ||| c == '*'
    ||| c == '['
    ||| c == ']'
    ||| c == '('
    ||| c == ')'
    ||| c == '~'
    ||| c == '`'
    ||| c == '>'
    ||| c == '#'
    ||| c == '+'
    ||| c == '-'
    ||| c == '='
    ||| c == '|'
    ||| c == '{'
    ||| c == '}'
    ||| c == '.'
}

/// The escaped form of one character.
pub open spec fn escape_char(c: char) -> Seq<char> {
    if is_markdown_special(c) {
        seq!['\\', c]
    } else {
        seq![c]
    }
}

/// The escaped form of a text: each special character preceded by a
/// backslash, everything else unchanged.
pub open spec fn escape_chars(s: Seq<char>) -> Seq<char>
    decreases s.len(),
{
    if s.len() == 0 {
        Seq::empty()
    } else {
        escape_chars(s.drop_last()) + escape_char(s.last())
    }
}

/// In an escaped text every special character is preceded by a backslash,
/// so the MarkdownV2 parser reads it as a literal character rather than as
/// markup.
pub proof fn lemma_escape_literal(s: Seq<char>)
    ensures
        forall|i: int|
            0 <= i < escape_chars(s).len() && is_markdown_special(
                #[trigger] escape_chars(s)[i],
            ) ==> i > 0 && escape_chars(s)[i - 1] == '\\',
    decreases s.len(),
{
    if s.len() > 0 {
        lemma_escape_literal(s.drop_last());
        let pre = escape_chars(s.drop_last());
        let all = escape_chars(s);
        assert forall|i: int|
            0 <= i < all.len() && is_markdown_special(#[trigger] all[i]) implies i > 0 && all[i
            - 1] == '\\' by {
            if i < pre.len() {
                assert(all[i] == pre[i]);
                assert(i > 0);
                assert(all[i - 1] == pre[i - 1]);
            } else {
                if is_markdown_special(s.last()) {
                    if i == pre.len() {
                        assert(all[i] == '\\');
                    } else {
                        assert(all[i] == s.last() && all[i - 1] == '\\');
                    }
                }
            }
        }
    }
}

/// Escape a text for MarkdownV2: prefix each special character with a
/// backslash.
pub fn escape(message: &str) -> (r: String)
    ensures
        r@ == escape_chars(message@),
{
    let chars = str_chars(message);
    let mut out: Vec<char> = Vec::new();
    let mut i: usize = 0;
    while i < chars.len()
        invariant
            chars@ == message@,
            i <= chars.len(),
            out@ == escape_chars(message@.subrange(0, i as int)),
        decreases chars.len() - i,
    {
        let c = chars[i];
        proof {
            assert(message@.subrange(0, i + 1).drop_last() =~= message@.subrange(0, i as int));
            assert(message@.subrange(0, i + 1).last() == message@[i as int]);
        }
        match c {
            '_' | '*' | '[' | ']' | '(' | ')' | '~' | '`' | '>' | '#' | '+' | '-' | '=' | '|'
                | '{' | '}' | '.' => {
                out.push('\\');
                out.push(c);
            },
            _ => {
                proof {
                    assert(!is_markdown_special(c));
                }
                out.push(c);
            },
        }
        proof {
            assert(out@ =~= escape_chars(message@.subrange(0, i + 1)));
        }
        i += 1;
    }
    proof {
        assert(message@.subrange(0, message@.len() as int) =~= message@);
    }
    chars_to_string(&out)
}

/// What `rfc3339_utc` yields for a given Unix timestamp.
pub uninterp spec fn rfc3339_of(secs: u64) -> Seq<char>;

/// Relies on chrono's `DateTime::from_timestamp` and
/// `DateTime::<Utc>::to_rfc3339`: the RFC 3339 rendering of a Unix
/// timestamp in UTC, a function of the timestamp alone (the empty string
/// for a timestamp chrono cannot represent).
#[verifier::external_body]
fn rfc3339_utc(secs: u64) -> (r: String)
    ensures
        r@ == rfc3339_of(secs),
{
    match i64::try_from(secs).ok().and_then(|s| chrono::DateTime::from_timestamp(s, 0)) {
        Some(dt) => dt.to_rfc3339(),
        None => String::new(),
    }
}

/// Seconds a message may wait in the queue before its delivery is
/// annotated as delayed.
pub const DELAY_ANNOTATION_SECS: u64 = 10;

/// Messages beyond this queue length are a fatal programmer error.
pub const MAX_QUEUE_LEN: usize = 128;

/// The text actually delivered for a queued message: the message itself,
/// or — when it waited more than `DELAY_ANNOTATION_SECS` — the message
/// with a delayed-delivery annotation carrying its creation time.
pub open spec fn prepared_text(text: Seq<char>, created_at: u64, now: u64) -> Seq<char> {
    if now - created_at > DELAY_ANNOTATION_SECS {
        text + "\n\n_This is a delayed message from `"@ + rfc3339_of(created_at) + "`._"@
    } else {
        text
    }
}

/// FIFO queue of pending notifications, each with its creation time (Unix
/// seconds).  An optional silence deadline suppresses enqueueing — not
/// draining — until it passes.
#[derive(Debug)]
pub struct NotificationQueue {
    /// Pending messages, oldest first, each with its creation time.
    pub entries: Vec<(String, u64)>,
    /// Enqueueing is suppressed until this Unix time.
    pub silence_until: Option<u64>,
}

impl NotificationQueue {
    /// An empty queue with an optional initial silence deadline.
    pub fn new(silence_until: Option<u64>) -> (r: NotificationQueue)
        ensures
            r.entries@.len() == 0,
            r.silence_until == silence_until,
    {
        NotificationQueue { entries: Vec::new(), silence_until }
    }

    /// Whether any message is waiting.
    pub fn has_pending(&self) -> (r: bool)
        ensures
            r == (self.entries@.len() > 0),
    {
        self.entries.len() > 0
    }

    /// Number of waiting messages; drives the queue gauge.
    pub fn len(&self) -> (r: usize)
        ensures
            r == self.entries@.len(),
    {
        self.entries.len()
    }

    /// Whether the queue has grown past its fatal bound; the caller treats
    /// this as a programmer error, as nothing in normal operation can
    /// produce it.
    pub fn is_overflowed(&self) -> (r: bool)
        ensures
            r == (self.entries@.len() > MAX_QUEUE_LEN),
    {
        self.entries.len() > MAX_QUEUE_LEN
    }

    /// Append a message, unless the silence deadline has not passed yet.
    /// Returns whether the message was accepted.
    pub fn enqueue(&mut self, text: String, now: u64) -> (accepted: bool)
        requires
            old(self).entries@.len() < usize::MAX,
        ensures
            final(self).silence_until == old(self).silence_until,
            accepted == match old(self).silence_until {
                Some(t) => t <= now,
                None => true,
            },
            accepted ==> final(self).entries@ == old(self).entries@.push((text, now)),
            !accepted ==> final(self).entries@ == old(self).entries@,
    {
        match self.silence_until {
            Some(t) => {
                if t > now {
                    return false;
                }
            },
            None => {},
        }
        self.entries.push((text, now));
        true
    }

    /// The text to deliver for the oldest message, annotated when it has
    /// waited too long; `None` when the queue is empty.  The entry itself
    /// stays queued until `pop_front` acknowledges a successful delivery.
    pub fn prepare_front(&self, now: u64) -> (r: Option<String>)
        ensures
            r is None <==> self.entries@.len() == 0,
            r matches Some(t) ==> self.entries@.len() > 0 && t@ == prepared_text(
                self.entries@[0].0@,
                self.entries@[0].1,
                now,
            ),
    {
        if self.entries.len() == 0 {
            return None;
        }
        let text = self.entries[0].0.clone();
        let created_at = self.entries[0].1;
        if now > created_at && now - created_at > DELAY_ANNOTATION_SECS {
            let stamp = rfc3339_utc(created_at);
            let mut out = text;
            out.append("\n\n_This is a delayed message from `");
            out.append(stamp.as_str());
            out.append("`._");
            proof {
                assert(out@ =~= prepared_text(self.entries@[0].0@, created_at, now));
            }
            Some(out)
        } else {
            Some(text)
        }
    }

    /// Drop the oldest message after it was delivered.
    pub fn pop_front(&mut self)
        requires
            old(self).entries@.len() > 0,
        ensures
            final(self).entries@ == old(self).entries@.drop_first(),
            final(self).silence_until == old(self).silence_until,
    {
        self.entries.remove(0);
        proof {
            assert(self.entries@ =~= old(self).entries@.drop_first());
        }
    }
}

/// The notification channel: the bot credentials and the message queue.
pub struct TelegramConfiguration {
    /// The bot token the messages are sent with.
    pub token: String,
    /// The chat the messages go to.
    pub chat_id: i64,
    /// The pending messages.
    pub queue: NotificationQueue,
}

impl TelegramConfiguration {
    /// A channel with an empty queue and an optional initial silence
    /// deadline.
    pub fn new(token: String, chat_id: i64, silence_until: Option<u64>) -> (r:
        TelegramConfiguration)
        ensures
            r.token == token,
            r.chat_id == chat_id,
            r.queue.entries@.len() == 0,
            r.queue.silence_until == silence_until,
    {
        TelegramConfiguration { token, chat_id, queue: NotificationQueue::new(silence_until) }
    }

    /// Whether any message is waiting.
    pub fn has_pending(&self) -> (r: bool)
        ensures
            r == (self.queue.entries@.len() > 0),
    {
        self.queue.has_pending()
    }
}

/// The serialized `{chat_id, parse_mode: "MarkdownV2", text}` object.
pub uninterp spec fn message_body_bytes(chat_id: i64, text: Seq<char>) -> Seq<u8>;

/// Relies on serde_json::{Map::new, Map::insert, Value construction,
/// to_vec}: the serialized message object, a function of the chat and
/// text alone (the map serializes its members in a fixed order).
#[verifier::external_body]
fn encode_message_body(chat_id: i64, text: &str) -> (r: Vec<u8>)
    ensures
        r@ == message_body_bytes(chat_id, text@),
{
    let mut m = serde_json::Map::new();
    m.insert("chat_id".to_string(), serde_json::Value::Number(chat_id.into()));
    m.insert("parse_mode".to_string(), serde_json::Value::String("MarkdownV2".to_string()));
    m.insert("text".to_string(), serde_json::Value::String(text.to_string()));
    serde_json::to_vec(&serde_json::Value::Object(m)).unwrap_or_default()
}

/// The JSON body of one message delivery: the chat, the MarkdownV2 parse
/// mode spec'd for the bot API, and the text.
pub fn message_body(chat_id: i64, text: &str) -> (r: Vec<u8>)
    ensures
        r@ == message_body_bytes(chat_id, text@),
{
    encode_message_body(chat_id, text)
}

/// The status line reported for one endpoint: its health mark and escaped
/// name, and — when it is monitored — its probe cadence, its confidence
/// threshold when above one, and its last problem while unhealthy.
pub open spec fn to_telegram_string_spec(e: Endpoint, healthy: bool, last_problem: Option<String>)
    -> Seq<char> {
    let head = (if healthy {
        "✅ `"@
    } else {
        "❌ `"@
    }) + escape_chars(e.name@) + "`"@;
    match e.monitoring {
        Some(m) => {
            let part1 = head + escape_chars(
                " (every "@ + dec_digits(m.interval_ms as int / 1000) + "s"@,
            );
            let part2 = if m.confidence > 1 {
                part1 + escape_chars(", confidence of "@ + dec_digits(m.confidence as int))
            } else {
                part1
            };
            let part3 = if !healthy && last_problem is Some {
                part2 + escape_chars(last_problem->0@)
            } else {
                part2
            };
            part3 + escape_chars(")"@)
        },
        None => head,
    }
}

/// Build the status line of one endpoint.
pub fn to_telegram_string(e: &Endpoint, healthy: bool, last_problem: &Option<String>) -> (r: String)
    ensures
        r@ == to_telegram_string_spec(*e, healthy, *last_problem),
{
    let mut out: String = if healthy {
        "✅ `".to_owned()
    } else {
        "❌ `".to_owned()
    };
    let escaped_name = escape(e.name.as_str());
    out.append(escaped_name.as_str());
    out.append("`");
    match &e.monitoring {
        Some(m) => {
            let mut raw: String = " (every ".to_owned();
            let secs = dec_string(m.interval_ms / 1000);
            raw.append(secs.as_str());
            raw.append("s");
            let esc = escape(raw.as_str());
            out.append(esc.as_str());
            if m.confidence > 1 {
                let mut raw2: String = ", confidence of ".to_owned();
                let conf = dec_string(m.confidence as u64);
                raw2.append(conf.as_str());
                let esc2 = escape(raw2.as_str());
                out.append(esc2.as_str());
            }
            if !healthy {
                match last_problem {
                    Some(p) => {
                        let esc3 = escape(p.as_str());
                        out.append(esc3.as_str());
                    },
                    None => {},
                }
            }
            let close = escape(")");
            out.append(close.as_str());
            proof {
                assert(out@ =~= to_telegram_string_spec(*e, healthy, *last_problem));
            }
        },
        None => {
            proof {
                assert(out@ =~= to_telegram_string_spec(*e, healthy, *last_problem));
            }
        },
    }
    out
}

/// Whether an index occurs in a sequence of indices.
pub open spec fn appears(r: Seq<usize>, k: usize) -> bool {
    exists|i: int| 0 <= i < r.len() && r[i] == k
}

/// Strict lexicographic order on `(weight, index)`: the order the change
/// notification lists endpoints in.
pub open spec fn weight_lex_lt(eps: Seq<Endpoint>, a: int, b: int) -> bool {
    eps[a].weight < eps[b].weight || (eps[a].weight == eps[b].weight && a < b)
}

/// The endpoints' indices ordered by ascending weight, ties by index.
pub fn sorted_by_weight(eps: &Vec<Endpoint>) -> (r: Vec<usize>)
    ensures
        forall|i: int| 0 <= i < r.len() ==> (#[trigger] r@[i]) < eps.len(),
        forall|i: int, j: int|
            0 <= i < j < r.len() ==> weight_lex_lt(eps@, r@[i] as int, r@[j] as int),
        forall|k: usize| k < eps.len() ==> #[trigger] appears(r@, k),
{
    let n = eps.len();
    let mut r: Vec<usize> = Vec::new();
    let mut w: u16 = 0;
    while w <= 255
        invariant
            n == eps.len(),
            w <= 256,
            forall|i: int| 0 <= i < r.len() ==> (#[trigger] r@[i]) < n,
            forall|i: int, j: int|
                0 <= i < j < r.len() ==> weight_lex_lt(eps@, r@[i] as int, r@[j] as int),
            forall|i: int| 0 <= i < r.len() ==> (eps@[(#[trigger] r@[i]) as int].weight as u16) < w,
            forall|k: usize|
                k < n && (eps@[k as int].weight as u16) < w ==> #[trigger] appears(r@, k),
        decreases 256 - w,
    {
        let mut k: usize = 0;
        while k < n
            invariant
                n == eps.len(),
                w <= 255,
                k <= n,
                forall|i: int| 0 <= i < r.len() ==> (#[trigger] r@[i]) < n,
                forall|i: int, j: int|
                    0 <= i < j < r.len() ==> weight_lex_lt(eps@, r@[i] as int, r@[j] as int),
                forall|i: int|
                    0 <= i < r.len() ==> ((eps@[(#[trigger] r@[i]) as int].weight as u16) < w || (
                    (eps@[r@[i] as int].weight as u16) == w && r@[i] < k)),
                forall|q: usize|
                    q < n && ((eps@[q as int].weight as u16) < w || ((eps@[q as int].weight
                        as u16) == w && q < k)) ==> #[trigger] appears(r@, q),
            decreases n - k,
        {
            if eps[k].weight as u16 == w {
                let ghost old_r = r@;
                r.push(k);
                proof {
                    assert(r@[r@.len() - 1] == k);
                    assert forall|q: usize|
                        q < n && ((eps@[q as int].weight as u16) < w || ((eps@[q as int].weight
                            as u16) == w && q < k + 1)) implies #[trigger] appears(r@, q) by {
                        if q == k {
                            assert(appears(r@, k));
                        } else {
                            assert(appears(old_r, q));
                            let i = choose|i: int| 0 <= i < old_r.len() && old_r[i] == q;
                            assert(r@[i] == q);
                        }
                    }
                }
            }
            k += 1;
        }
        w += 1;
    }
    r
}

/// The per-endpoint report appended to a change notification, one line per
/// endpoint, in the given order.
pub open spec fn report_lines(
    eps: Seq<Endpoint>,
    healthy: Seq<bool>,
    problems: Seq<Option<String>>,
    order: Seq<usize>,
) -> Seq<char>
    decreases order.len(),
{
    if order.len() == 0 {
        Seq::empty()
    } else {
        report_lines(eps, healthy, problems, order.drop_last()) + "\n  "@ + to_telegram_string_spec(
            eps[order.last() as int],
            healthy[order.last() as int],
            problems[order.last() as int],
        )
    }
}

/// The notification sent when the primary changed: the new primary's name,
/// then every endpoint's status line in the given order.
pub open spec fn change_message_spec(
    eps: Seq<Endpoint>,
    healthy: Seq<bool>,
    problems: Seq<Option<String>>,
    order: Seq<usize>,
    primary: int,
) -> Seq<char> {
    "Ingress changed to *"@ + escape_chars(eps[primary].name@) + "*"@ + escape_chars("."@)
        + report_lines(eps, healthy, problems, order)
}

/// Build the change notification for a new primary, listing the endpoints
/// in the given order (normally `sorted_by_weight`).
pub fn build_change_message(
    eps: &Vec<Endpoint>,
    healthy: &Vec<bool>,
    problems: &Vec<Option<String>>,
    order: &Vec<usize>,
    primary: usize,
) -> (r: String)
    requires
        primary < eps.len(),
        healthy.len() == eps.len(),
        problems.len() == eps.len(),
        forall|i: int| 0 <= i < order.len() ==> (#[trigger] order@[i]) < eps.len(),
    ensures
        r@ == change_message_spec(eps@, healthy@, problems@, order@, primary as int),
{
    let mut out: String = "Ingress changed to *".to_owned();
    let name = escape(eps[primary].name.as_str());
    out.append(name.as_str());
    out.append("*");
    let dot = escape(".");
    out.append(dot.as_str());
    let mut i: usize = 0;
    while i < order.len()
        invariant
            primary < eps.len(),
            healthy.len() == eps.len(),
            problems.len() == eps.len(),
            forall|k: int| 0 <= k < order.len() ==> (#[trigger] order@[k]) < eps.len(),
            i <= order.len(),
            out@ == change_message_spec(
                eps@,
                healthy@,
                problems@,
                order@.subrange(0, i as int),
                primary as int,
            ),
        decreases order.len() - i,
    {
        let idx = order[i];
        proof {
            assert(order@.subrange(0, i + 1).drop_last() =~= order@.subrange(0, i as int));
            assert(order@.subrange(0, i + 1).last() == order@[i as int]);
        }
        out.append("\n  ");
        let line = to_telegram_string(&eps[idx], healthy[idx], &problems[idx]);
        out.append(line.as_str());
        proof {
            assert(out@ =~= change_message_spec(
                eps@,
                healthy@,
                problems@,
                order@.subrange(0, i + 1),
                primary as int,
            ));
        }
        i += 1;
    }
    proof {
        assert(order@.subrange(0, order@.len() as int) =~= order@);
    }
    out
}

} // verus!
