//! The conversation on WhatsApp, through a bridge: what a message changes, and what is answered.

use crate::bytes;
use crate::chars;
use crate::chat;
use crate::excerpt;
use crate::messages;
use crate::model_call::{ModelKind, ModelRequest, RequestView};
use crate::models;
use crate::models::{
    ConversationView, ReferenceStyle, ResearchSource, WhatsAppBridgeAudio, WhatsAppBridgeMessage,
    WhatsAppBridgeResponse, WhatsAppResearchBrief,
};
use crate::numbers;
use crate::outside;
use crate::prompts;
use crate::rendering;
use crate::state;
use crate::state::{AppState, StateView};
use crate::text;
use crate::trim;
use vstd::prelude::*;

verus! {

broadcast use text::lemma_views_push;

// Senders

/// The digits of a text.
pub open spec fn digits_test() -> spec_fn(char) -> bool {
    |c: char| chars::is_digit(c)
}

/// The key of a sender, given a hash of the name: the number that its digits make up where it fits,
/// else the hash without its highest bit.
pub open spec fn key_with(sender: Seq<char>, hash: u64) -> i64 {
    match numbers::parse_between(
        sender.filter(digits_test()),
        i64::MIN as int,
        i64::MAX as int,
    ) {
        Some(n) => n as i64,
        None => (hash & 0x7fff_ffff_ffff_ffff) as i64,
    }
}

/// The key of a sender.
pub open spec fn key_of(sender: Seq<char>) -> i64 {
    key_with(sender, outside::default_hash(sender))
}

/// The key of a sender, given a hash of the name.
pub fn sender_key_with(sender: &str, hash: u64) -> (r: i64)
    ensures
        r == key_with(sender@, hash),
        r >= 0,
{
    let x = text::chars_of(sender);
    let mut digits = String::new();
    let mut i: usize = 0;
    proof {
        crate::pieces::lemma_filter_ends(x@, digits_test());
    }
    assert(digits@ =~= x@.take(0).filter(digits_test()));
    while i < x.len()
        invariant
            i <= x@.len(),
            digits@ == x@.take(i as int).filter(digits_test()),
            forall|j: int| 0 <= j < digits@.len() ==> chars::is_digit(#[trigger] digits@[j]),
        decreases x@.len() - i,
    {
        proof {
            crate::pieces::lemma_filter_step(x@, digits_test(), i as int);
        }
        if chars::digit(x[i]) {
            digits.push(x[i]);
        }
        i += 1;
    }
    proof {
        crate::pieces::lemma_filter_ends(x@, digits_test());
        assert(!chars::is_digit('-'));
        assert(hash & 0x7fff_ffff_ffff_ffff <= 0x7fff_ffff_ffff_ffff) by (bit_vector);
    }
    match numbers::parse_number(digits.as_str(), i64::MIN, i64::MAX as u64) {
        Some(n) => {
            assert(n >= 0) by {
                if digits@.len() > 0 {
                    assert(chars::is_digit(digits@[0]));
                }
            }
            n as i64
        },
        None => (hash & 0x7fff_ffff_ffff_ffff) as i64,
    }
}

/// The key of a sender.
pub fn whatsapp_sender_key(sender: &str) -> (r: i64)
    ensures
        r == key_of(sender@),
        r >= 0,
{
    let hash = outside::hash_text(sender);
    sender_key_with(sender, hash)
}

// Answers

/// An answer that is nothing but text, or nothing at all.
pub open spec fn is_plain(r: WhatsAppBridgeResponse, reply: Option<Seq<char>>) -> bool {
    &&& text::opt_view(r.reply) == reply
    &&& r.document_base64 is None
    &&& r.document_filename is None
    &&& r.document_caption is None
}

fn plain(reply: &str) -> (r: WhatsAppBridgeResponse)
    ensures
        is_plain(r, Some(reply@)),
{
    WhatsAppBridgeResponse {
        reply: Some(text::copy(reply)),
        document_base64: None,
        document_filename: None,
        document_caption: None,
    }
}

/// The answer to a message for which a task was started: the task itself will answer.
pub fn silent_response() -> (r: WhatsAppBridgeResponse)
    ensures
        is_plain(r, None),
{
    WhatsAppBridgeResponse {
        reply: None,
        document_base64: None,
        document_filename: None,
        document_caption: None,
    }
}

/// What a message leads to: it is refused, answered at once, or a task for the sender.
#[derive(Debug)]
pub enum BridgeOutcome {
    Unauthorized { response: WhatsAppBridgeResponse },
    Reply { response: WhatsAppBridgeResponse },
    Start { sender_key: i64, text: String },
}

pub enum BridgeView {
    Unauthorized { reply: Seq<char> },
    Reply { reply: Seq<char> },
    Start { sender_key: i64, text: Seq<char> },
}

/// Whether an outcome is as described.
pub open spec fn is_outcome(r: BridgeOutcome, v: BridgeView) -> bool {
    match (r, v) {
        (BridgeOutcome::Unauthorized { response }, BridgeView::Unauthorized { reply }) => is_plain(
            response,
            Some(reply),
        ),
        (BridgeOutcome::Reply { response }, BridgeView::Reply { reply }) => is_plain(
            response,
            Some(reply),
        ),
        (
            BridgeOutcome::Start { sender_key, text },
            BridgeView::Start { sender_key: key, text: t },
        ) => sender_key == key && text@ == t,
        _ => false,
    }
}

/// Whether a text in lower case is a greeting or asks for help.
pub open spec fn is_greeting(t: Seq<char>) -> bool {
    ||| t == "help"@
    ||| t == "/help"@
    ||| t == "start"@
    ||| t == "/start"@
    ||| t == "menu"@
    ||| t == "hi"@
    ||| t == "hello"@
    ||| t == "hey"@
    ||| t == "hi professor"@
    ||| t == "hello professor"@
    ||| bytes::byte_len(t) < 15 && ("hi "@.is_prefix_of(t) || "hello "@.is_prefix_of(t)
        || "hey "@.is_prefix_of(t))
}

fn greets(t: &str) -> (r: bool)
    ensures
        r == is_greeting(t@),
{
    text::same(t, "help") || text::same(t, "/help") || text::same(t, "start") || text::same(
        t,
        "/start",
    ) || text::same(t, "menu") || text::same(t, "hi") || text::same(t, "hello") || text::same(
        t,
        "hey",
    ) || text::same(t, "hi professor") || text::same(t, "hello professor") || (bytes::byte_length(
        t,
    ) < 15 && (text::starts_with(t, "hi ") || text::starts_with(t, "hello ") || text::starts_with(
        t,
        "hey ",
    )))
}

/// Whether a text in lower case asks to forget earlier queries.
pub open spec fn asks_to_forget(t: Seq<char>) -> bool {
    t == "/clear"@ || t == "clear"@ || t == "reset"@ || t == "/reset"@
}

/// Whether a sender may use the bridge: where no users are listed, everyone may.
pub open spec fn is_allowed(allowed_users: Option<Seq<i64>>, sender_key: i64) -> bool {
    match allowed_users {
        Some(list) => list.contains(sender_key),
        None => true,
    }
}

/// Whether a request through the bridge is refused: it does not show the secret, or its sender is not
/// allowed.
pub open spec fn is_refused(s: StateView, auth: Seq<char>, sender: Seq<char>) -> bool {
    auth != s.config.bridge_secret || !is_allowed(s.config.allowed_users, key_of(sender))
}

/// Whether a request through the bridge is refused.
fn refuses(state: &AppState, auth: &str, sender: &str) -> (r: bool)
    ensures
        r == is_refused(state@, auth@, sender@),
{
    if !text::same(auth, state.config.bridge_secret.as_str()) {
        return true;
    }
    match &state.config.allowed_users {
        Some(users) => !lists(users, whatsapp_sender_key(sender)),
        None => false,
    }
}

/// Whether a user is in a list.
fn lists(users: &Vec<i64>, sender_key: i64) -> (r: bool)
    ensures
        r == users@.contains(sender_key),
{
    let mut i: usize = 0;
    while i < users.len()
        invariant
            i <= users@.len(),
            forall|j: int| 0 <= j < i ==> #[trigger] users@[j] != sender_key,
        decreases users@.len() - i,
    {
        if users[i] == sender_key {
            return true;
        }
        i += 1;
    }
    false
}

/// What a message leads to, and the state after it: without the secret, or from a sender who is not
/// allowed, it is refused; an empty message or a greeting is answered with help; the memory is
/// cleared where that is asked for; the rate limit counts all else, and a sender has one task at a
/// time.
pub open spec fn incoming_outcome(
    s: StateView,
    auth: Seq<char>,
    sender: Seq<char>,
    body: Seq<char>,
    now: u64,
) -> (StateView, BridgeView) {
    let key = key_of(sender);
    let clean = excerpt::sanitized(body);
    let lowered = chars::lowercase(clean);
    let max = s.config.max_requests_per_hour;
    let times = state::times_of(s.rate_limits, key);
    let counted = StateView {
        rate_limits: s.rate_limits.insert(key, state::times_after(times, now, max)),
        ..s
    };
    if is_refused(s, auth, sender) {
        (s, BridgeView::Unauthorized { reply: "Unauthorized access to API."@ })
    } else if clean.len() == 0 || is_greeting(lowered) {
        (s, BridgeView::Reply { reply: messages::WHATSAPP_HELP_MESSAGE@ })
    } else if asks_to_forget(lowered) {
        (
            StateView { chat_history: s.chat_history.remove(key), ..s },
            BridgeView::Reply {
                reply: "🔄 Your conversation memory has been cleared! I'll treat your next message as a fresh topic."@,
            },
        )
    } else if !state::is_admitted(times, now, max) {
        (counted, BridgeView::Reply { reply: messages::RATE_LIMIT_MESSAGE@ })
    } else if s.active_tasks.contains(key) {
        (
            counted,
            BridgeView::Reply {
                reply: "⏳ You already have an active research task running. Please wait for it to complete before starting another one."@,
            },
        )
    } else {
        (
            StateView { active_tasks: s.active_tasks.insert(key), ..counted },
            BridgeView::Start { sender_key: key, text: clean },
        )
    }
}

/// What a message through the bridge leads to.
pub fn whatsapp_bridge_incoming(
    state: &mut AppState,
    auth: &str,
    payload: &WhatsAppBridgeMessage,
    now: u64,
) -> (r: BridgeOutcome)
    ensures
        ({
            let (after, outcome) = incoming_outcome(
                old(state)@,
                auth@,
                payload.sender@,
                payload.body@,
                now,
            );
            final(state)@ == after && is_outcome(r, outcome)
        }),
{
    if refuses(state, auth, payload.sender.as_str()) {
        return BridgeOutcome::Unauthorized { response: plain("Unauthorized access to API.") };
    }
    let key = whatsapp_sender_key(payload.sender.as_str());
    let clean = excerpt::sanitize_topic(payload.body.as_str());
    if clean.as_str().is_empty() {
        return BridgeOutcome::Reply { response: plain(messages::WHATSAPP_HELP_MESSAGE) };
    }
    let lowered = chars::to_lowercase(clean.as_str());
    let l = lowered.as_str();
    if greets(l) {
        return BridgeOutcome::Reply { response: plain(messages::WHATSAPP_HELP_MESSAGE) };
    }
    if text::same(l, "/clear") || text::same(l, "clear") || text::same(l, "reset") || text::same(
        l,
        "/reset",
    ) {
        state::clear_chat_history(state, key);
        return BridgeOutcome::Reply {
            response: plain(
                "🔄 Your conversation memory has been cleared! I'll treat your next message as a fresh topic.",
            ),
        };
    }
    if !state::check_rate_limit(state, key, now) {
        return BridgeOutcome::Reply { response: plain(messages::RATE_LIMIT_MESSAGE) };
    }
    let ghost counted = state@;
    if !state::begin_task(state, key) {
        assert(counted.active_tasks.insert(key) =~= counted.active_tasks);
        return BridgeOutcome::Reply {
            response: plain(
                "⏳ You already have an active research task running. Please wait for it to complete before starting another one.",
            ),
        };
    }
    BridgeOutcome::Start { sender_key: key, text: clean }
}

/// Without the secret a message is refused and changes nothing, and so is a voice note.
pub proof fn law_refused_without_secret(
    s: StateView,
    auth: Seq<char>,
    sender: Seq<char>,
    body: Seq<char>,
    now: u64,
)
    requires
        auth != s.config.bridge_secret,
    ensures
        incoming_outcome(s, auth, sender, body, now) == (
            s,
            BridgeView::Unauthorized { reply: "Unauthorized access to API."@ },
        ),
        audio_outcome(s, auth, sender) == (BridgeView::Unauthorized {
            reply: "Unauthorized access to API."@,
        }),
{
}

/// Where users are listed, a message from anyone else is refused and changes nothing, and so is a
/// voice note; where none are, nobody who has the secret is refused.
pub proof fn law_only_allowed_users_are_served(
    s: StateView,
    auth: Seq<char>,
    sender: Seq<char>,
    body: Seq<char>,
    now: u64,
)
    ensures
        s.config.allowed_users matches Some(list) && !list.contains(key_of(sender))
            ==> incoming_outcome(s, auth, sender, body, now) == (
            s,
            BridgeView::Unauthorized { reply: "Unauthorized access to API."@ },
        ) && audio_outcome(s, auth, sender) == (BridgeView::Unauthorized {
            reply: "Unauthorized access to API."@,
        }),
        s.config.allowed_users is None && auth == s.config.bridge_secret ==> incoming_outcome(
            s,
            auth,
            sender,
            body,
            now,
        ).1 !is Unauthorized && audio_outcome(s, auth, sender) is Reply,
{
}

/// A sender has one task at a time: a task starts only where none is running, and is running from
/// then on; no other sender is concerned.
pub proof fn law_one_task_at_a_time(
    s: StateView,
    auth: Seq<char>,
    sender: Seq<char>,
    body: Seq<char>,
    now: u64,
    other: i64,
)
    ensures
        ({
            let (after, outcome) = incoming_outcome(s, auth, sender, body, now);
            &&& outcome is Start ==> !s.active_tasks.contains(key_of(sender))
                && after.active_tasks.contains(key_of(sender))
            &&& outcome !is Start ==> after.active_tasks == s.active_tasks
            &&& other != key_of(sender) ==> (after.active_tasks.contains(other)
                <==> s.active_tasks.contains(other)) && state::history_of(
                after.chat_history,
                other,
            ) == state::history_of(s.chat_history, other) && state::times_of(
                after.rate_limits,
                other,
            ) == state::times_of(s.rate_limits, other)
        }),
{
}

/// Where a sender who is allowed asks for it, their memory is cleared: the next question stands for itself.
pub proof fn law_memory_is_cleared(
    s: StateView,
    auth: Seq<char>,
    sender: Seq<char>,
    body: Seq<char>,
    now: u64,
)
    requires
        auth == s.config.bridge_secret,
        is_allowed(s.config.allowed_users, key_of(sender)),
    ensures
        ({
            let lowered = chars::lowercase(excerpt::sanitized(body));
            let (after, outcome) = incoming_outcome(s, auth, sender, body, now);
            asks_to_forget(lowered) && excerpt::sanitized(body).len() > 0 ==> outcome is Reply
                && state::history_of(after.chat_history, key_of(sender)) == Seq::<
                Seq<char>,
            >::empty()
        }),
{
    reveal_strlit("/clear");
    reveal_strlit("clear");
    reveal_strlit("reset");
    reveal_strlit("/reset");
    reveal_strlit("help");
    reveal_strlit("/help");
    reveal_strlit("start");
    reveal_strlit("/start");
    reveal_strlit("menu");
    reveal_strlit("hi");
    reveal_strlit("hello");
    reveal_strlit("hey");
    reveal_strlit("hi professor");
    reveal_strlit("hello professor");
    reveal_strlit("hi ");
    reveal_strlit("hello ");
    reveal_strlit("hey ");
    let lowered = chars::lowercase(excerpt::sanitized(body));
    if asks_to_forget(lowered) {
        assert(lowered[0] == 'c' || lowered[0] == 'r' || lowered[0] == '/' && (lowered[1] == 'c'
            || lowered[1] == 'r'));
        assert("help"@[0] == 'h' && "/help"@[1] == 'h' && "start"@[0] == 's' && "/start"@[1] == 's'
            && "menu"@[0] == 'm' && "hi"@[0] == 'h' && "hello"@[0] == 'h' && "hey"@[0] == 'h'
            && "hi professor"@[0] == 'h' && "hello professor"@[0] == 'h' && "hi "@[0] == 'h'
            && "hello "@[0] == 'h' && "hey "@[0] == 'h');
        assert(!"hi "@.is_prefix_of(lowered) && !"hello "@.is_prefix_of(lowered)
            && !"hey "@.is_prefix_of(lowered));
    }
}

/// A message through the bridge keeps the limits of what is remembered.
pub proof fn law_incoming_keeps_bounds(
    s: StateView,
    auth: Seq<char>,
    sender: Seq<char>,
    body: Seq<char>,
    now: u64,
)
    requires
        state::is_bounded(s),
    ensures
        state::is_bounded(incoming_outcome(s, auth, sender, body, now).0),
{
    let key = key_of(sender);
    let times = state::times_of(s.rate_limits, key);
    let counted = StateView {
        rate_limits: s.rate_limits.insert(
            key,
            state::times_after(times, now, s.config.max_requests_per_hour),
        ),
        ..s
    };
    state::law_bounds_are_kept(s, key, ConversationView::Idle, body, arbitrary(), now);
    state::law_bounds_are_kept(counted, key, ConversationView::Idle, body, arbitrary(), now);
}

/// What a voice note leads to: it is refused like a message, or told that voice notes are not read.
pub open spec fn audio_outcome(s: StateView, auth: Seq<char>, sender: Seq<char>) -> BridgeView {
    if is_refused(s, auth, sender) {
        BridgeView::Unauthorized { reply: "Unauthorized access to API."@ }
    } else {
        BridgeView::Reply {
            reply: "Voice note research is not enabled yet. Send text like `Explain the future of lithium batteries` or `report: impact of AI on healthcare logistics`."@,
        }
    }
}

/// What a voice note through the bridge leads to.
pub fn whatsapp_bridge_audio(state: &AppState, auth: &str, payload: &WhatsAppBridgeAudio) -> (r:
    BridgeOutcome)
    ensures
        is_outcome(r, audio_outcome(state@, auth@, payload.sender@)),
{
    if refuses(state, auth, payload.sender.as_str()) {
        return BridgeOutcome::Unauthorized { response: plain("Unauthorized access to API.") };
    }
    BridgeOutcome::Reply {
        response: plain(
            "Voice note research is not enabled yet. Send text like `Explain the future of lithium batteries` or `report: impact of AI on healthcare logistics`.",
        ),
    }
}

// Tasks

/// The marks of a message that asks for a full report.
pub open spec fn report_marks() -> Seq<Seq<char>> {
    seq!["report:"@, "full report:"@, "pdf:"@, "/report "@]
}

/// What follows a mark at the beginning of a message. The mark is found in the message in lower
/// case, and cut from the message by its length in bytes; it counts only where that length ends
/// between two characters.
pub open spec fn after_mark(t: Seq<char>, mark: Seq<char>) -> Option<Seq<char>> {
    if mark.is_prefix_of(chars::lowercase(t)) {
        match bytes::from_byte(t, mark.len() as int) {
            Some(rest) => if trim::trim(rest).len() > 0 {
                Some(trim::trim(rest))
            } else {
                None
            },
            None => None,
        }
    } else {
        None
    }
}

pub open spec fn first_after_mark(t: Seq<char>, marks: Seq<Seq<char>>) -> Option<Seq<char>>
    decreases marks.len(),
{
    if marks.len() == 0 {
        None
    } else {
        match after_mark(t, marks[0]) {
            Some(rest) => Some(rest),
            None => first_after_mark(t, marks.skip(1)),
        }
    }
}

/// The topic of the full report that a message asks for.
pub open spec fn report_topic(t: Seq<char>) -> Option<Seq<char>> {
    first_after_mark(trim::trim(t), report_marks())
}

/// The topic of the full report that a message asks for, where it does.
pub fn extract_full_report_topic(t: &str) -> (r: Option<String>)
    ensures
        r is Some <==> report_topic(t@) is Some,
        r matches Some(s) ==> report_topic(t@) == Some(s@),
{
    let trimmed = trim::trimmed(t);
    let lowered = chars::to_lowercase(trimmed.as_str());
    let marks = vec!["report:", "full report:", "pdf:", "/report "];
    let ghost all = report_marks();
    assert(text::str_views(marks@) =~= all);
    let mut k: usize = 0;
    assert(all.skip(0) == all);
    while k < marks.len()
        invariant
            k <= marks@.len(),
            text::str_views(marks@) == all,
            all == report_marks(),
            trimmed@ == trim::trim(t@),
            lowered@ == chars::lowercase(trimmed@),
            report_topic(t@) == first_after_mark(trimmed@, all.skip(k as int)),
        decreases marks@.len() - k,
    {
        assert(all.skip(k as int)[0] == marks@[k as int]@);
        if text::starts_with(lowered.as_str(), marks[k]) {
            let length = text::chars_of(marks[k]).len();
            match bytes::text_from_byte(trimmed.as_str(), length) {
                Some(rest) => {
                    let topic = trim::trimmed(rest.as_str());
                    if !topic.as_str().is_empty() {
                        return Some(topic);
                    }
                },
                None => {},
            }
        }
        assert(all.skip(k as int).skip(1) == all.skip(k + 1));
        k += 1;
    }
    None
}

/// A message that begins with a mark, in any case of letters, asks for a full report on what
/// follows.
pub proof fn law_marks_ask_for_reports(k: int, mark: Seq<char>, topic: Seq<char>)
    requires
        0 <= k < report_marks().len(),
        chars::ascii_lowered(mark) == report_marks()[k],
        trim::trim(topic).len() > 0,
    ensures
        report_topic(mark + topic) == Some(trim::trim(topic)),
{
    let marks = report_marks();
    reveal_strlit("report:");
    reveal_strlit("full report:");
    reveal_strlit("pdf:");
    reveal_strlit("/report ");
    let low = chars::ascii_lowered(mark);
    assert(mark.len() == low.len());
    assert forall|i: int| 0 <= i < mark.len() implies (#[trigger] mark[i] as u32) < 128 by {
        assert(low[i] == chars::ascii_lower(mark[i]));
        assert((low[i] as u32) < 128);
    }
    assert(low[0] == chars::ascii_lower(mark[0]));
    assert(!chars::is_white(mark[0]));
    trim::lemma_trim_beginning(mark, topic);
    trim::lemma_trim_after_trim_end(topic);
    let rest = trim::trim_end(topic);
    let message = mark + rest;
    chars::lemma_lowercase_beginning(mark, rest);
    bytes::lemma_chars_before_ascii(mark, rest);
    let lowered = chars::lowercase(message);
    assert(lowered.subrange(0, low.len() as int) =~= low);
    assert(low.is_prefix_of(lowered));
    assert(after_mark(message, low) == Some(trim::trim(topic)));
    assert(lowered[0] == low[0]);
    assert("report:"@[0] == 'r' && "full report:"@[0] == 'f' && "pdf:"@[0] == 'p'
        && "/report "@[0] == '/');
    assert forall|j: int| 0 <= j < k implies after_mark(message, #[trigger] marks[j]) is None by {
        if marks[j].is_prefix_of(lowered) {
            assert(lowered.subrange(0, marks[j].len() as int)[0] == lowered[0]);
        }
    }
    lemma_first_after_mark(message, marks, k);
}

proof fn lemma_first_after_mark(t: Seq<char>, marks: Seq<Seq<char>>, k: int)
    requires
        0 <= k < marks.len(),
        after_mark(t, marks[k]) is Some,
        forall|j: int| 0 <= j < k ==> after_mark(t, #[trigger] marks[j]) is None,
    ensures
        first_after_mark(t, marks) == after_mark(t, marks[k]),
    decreases k,
{
    if k > 0 {
        let more = marks.skip(1);
        assert(more[k - 1] == marks[k]);
        assert forall|j: int| 0 <= j < k - 1 implies after_mark(t, #[trigger] more[j]) is None by {
            assert(more[j] == marks[j + 1]);
        }
        assert(after_mark(t, marks[0]) is None);
        lemma_first_after_mark(t, more, k - 1);
    }
}

/// What a task does: a full report, or a brief. The first text of a report is remembered.
#[derive(Debug)]
pub enum BridgeTask {
    Report { asked: String, topic: String, reference_style: ReferenceStyle },
    Brief { topic: String },
}

/// What a task does for a question.
pub fn plan_task(resolved: &str) -> (r: BridgeTask)
    ensures
        match report_topic(resolved@) {
            Some(t) => r matches BridgeTask::Report { asked, topic, reference_style } && asked@
                == t && topic@ == chat::topic_of(t) && reference_style == chat::style_of(t),
            None => r matches BridgeTask::Brief { topic } && topic@ == chat::topic_of(resolved@),
        },
{
    match extract_full_report_topic(resolved) {
        Some(asked) => {
            let (topic, reference_style) = chat::extract_topic_and_reference_style(asked.as_str());
            BridgeTask::Report { asked, topic, reference_style }
        },
        None => {
            let (topic, _) = chat::extract_topic_and_reference_style(resolved);
            BridgeTask::Brief { topic }
        },
    }
}

/// What a model is asked to make of a question, where there were others before it.
pub fn reformulate_request(history: &Vec<String>, query: &str) -> (r: Option<ModelRequest>)
    ensures
        r is None <==> history@.len() == 0,
        r matches Some(m) ==> m@ == (RequestView {
            kind: ModelKind::Prose,
            system: prompts::REFORMULATION_SYSTEM_PROMPT@,
            prompt: prompts::reformulation_prompt(text::views(history@), query@),
            temperature_percent: 10,
            max_output_tokens: 150,
        }),
{
    match prompts::reformulation_request(history, query) {
        Some(prompt) => Some(
            ModelRequest {
                kind: ModelKind::Prose,
                system: prompts::REFORMULATION_SYSTEM_PROMPT,
                prompt,
                temperature_percent: 10,
                max_output_tokens: 150,
            },
        ),
        None => None,
    }
}

/// What a model is asked for a brief.
pub fn brief_request(topic: &str, sources: &Vec<ResearchSource>) -> (r: ModelRequest)
    ensures
        r@ == (RequestView {
            kind: ModelKind::Prose,
            system: prompts::WHATSAPP_RESEARCH_SYSTEM_PROMPT@,
            prompt: prompts::brief_prompt(topic@, models::source_views(sources@)),
            temperature_percent: 35,
            max_output_tokens: 1_400,
        }),
{
    ModelRequest {
        kind: ModelKind::Prose,
        system: prompts::WHATSAPP_RESEARCH_SYSTEM_PROMPT,
        prompt: prompts::build_whatsapp_brief_prompt(topic, sources),
        temperature_percent: 35,
        max_output_tokens: 1_400,
    }
}

/// The brief on a topic, given the answer of a model or that there was none.
pub fn run_whatsapp_research_brief(
    topic: &str,
    sources: Vec<ResearchSource>,
    answer: &Option<String>,
) -> (r: WhatsAppResearchBrief)
    ensures
        r.topic@ == topic@,
        r.sources == sources,
        r.answer@ == match answer {
            Some(t) => rendering::brief_text(t@, topic@, models::source_views(sources@)),
            None => rendering::plain_brief(topic@, models::source_views(sources@)),
        },
{
    let text_of_brief = match answer {
        Some(t) => rendering::normalize_whatsapp_answer(t.as_str(), topic, &sources),
        None => rendering::fallback_whatsapp_brief(topic, &sources),
    };
    WhatsAppResearchBrief { topic: text::copy(topic), answer: text_of_brief, sources }
}

/// What a sender is told while all places for reports are taken.
pub const QUEUED_MESSAGE: &'static str =
    "📋 Your report is queued! Other reports are being generated right now. I'll start yours automatically when a slot opens...";

/// What a sender is told when a report is begun.
pub fn preparing_message(asked: &str) -> (r: String)
    ensures
        r@ == "⏳ Preparing full research report for \""@ + asked@ + "\"..."@,
{
    let mut r = text::copy("⏳ Preparing full research report for \"");
    r.append(asked);
    r.append("\"...");
    r
}

/// What a sender is told when a brief is begun.
pub fn researching_message(topic: &str) -> (r: String)
    ensures
        r@ == "🔎 Researching brief for \""@ + topic@ + "\"..."@,
{
    let mut r = text::copy("🔎 Researching brief for \"");
    r.append(topic);
    r.append("\"...");
    r
}

/// How a report is sent: the PDF in Base64 with its caption, or a message where there is no PDF.
#[derive(Debug)]
pub enum ReportDelivery {
    Document { base64: String, file_name: String, caption: String },
    Message { text: String },
}

/// How a report on a topic is sent, given its PDF where it could be read.
pub fn deliver_document(topic: &str, pdf: &Option<Vec<u8>>) -> (r: ReportDelivery)
    ensures
        match pdf {
            Some(data) => r matches ReportDelivery::Document { base64, file_name, caption }
                && base64@ == outside::base64_text(data@) && file_name@ == "report.pdf"@ && caption@
                == "📊 Your Research Report: "@ + topic@,
            None => r matches ReportDelivery::Message { text } && text@
                == "✅ Research completed for \""@ + topic@ + "\" but failed to attach PDF."@,
        },
{
    match pdf {
        Some(data) => {
            let mut caption = text::copy("📊 Your Research Report: ");
            caption.append(topic);
            ReportDelivery::Document {
                base64: outside::base64_encode(data),
                file_name: text::copy("report.pdf"),
                caption,
            }
        },
        None => {
            let mut t = text::copy("✅ Research completed for \"");
            t.append(topic);
            t.append("\" but failed to attach PDF.");
            ReportDelivery::Message { text: t }
        },
    }
}

/// The state after a task: its topic is remembered, and no task is running for the sender.
pub open spec fn after_task(s: StateView, sender_key: i64, topic: Seq<char>) -> StateView {
    StateView {
        chat_history: s.chat_history.insert(
            sender_key,
            state::remembered(state::history_of(s.chat_history, sender_key), topic),
        ),
        active_tasks: s.active_tasks.remove(sender_key),
        ..s
    }
}

/// After a task its topic is remembered, and the sender may start another.
pub fn finish_task(state: &mut AppState, sender_key: i64, topic: &str)
    ensures
        final(state)@ == after_task(old(state)@, sender_key, topic@),
{
    state::push_chat_history(state, sender_key, topic);
    state::end_task(state, sender_key);
}

/// After a task its topic is the last that is remembered of the sender, and a further question with
/// the secret starts a task again while the sender is allowed and the rate limit admits it. Other senders are not concerned.
pub proof fn law_finished_tasks_make_room(
    s: StateView,
    sender: Seq<char>,
    topic: Seq<char>,
    body: Seq<char>,
    now: u64,
    other: i64,
)
    requires
        state::is_bounded(s),
    ensures
        ({
            let key = key_of(sender);
            let after = after_task(s, key, topic);
            let clean = excerpt::sanitized(body);
            let lowered = chars::lowercase(clean);
            let next = incoming_outcome(after, s.config.bridge_secret, sender, body, now).1;
            &&& state::history_of(after.chat_history, key).last() == topic
            &&& state::is_bounded(after)
            &&& is_allowed(s.config.allowed_users, key) && clean.len() > 0 && !is_greeting(lowered)
                && !asks_to_forget(lowered) && state::is_admitted(
                state::times_of(s.rate_limits, key),
                now,
                s.config.max_requests_per_hour,
            ) ==> next == (BridgeView::Start { sender_key: key, text: clean })
            &&& other != key ==> state::history_of(after.chat_history, other) == state::history_of(
                s.chat_history,
                other,
            ) && (after.active_tasks.contains(other) <==> s.active_tasks.contains(other))
        }),
{
    let key = key_of(sender);
    assert(state::history_of(s.chat_history, key).len() <= state::MAX_CHAT_HISTORY_PER_USER);
    state::law_history_is_short(state::history_of(s.chat_history, key), topic);
    state::law_bounds_are_kept(s, key, ConversationView::Idle, topic, arbitrary(), now);
    let told = StateView {
        chat_history: s.chat_history.insert(
            key,
            state::remembered(state::history_of(s.chat_history, key), topic),
        ),
        ..s
    };
    state::law_bounds_are_kept(told, key, ConversationView::Idle, topic, arbitrary(), now);
}

// Errors

/// The kinds of errors that users are told of.
pub enum ErrorKind {
    Overloaded,
    TooSlow,
    NoAnswer,
    Other,
}

/// The kind of an error.
pub open spec fn error_kind(error: Seq<char>) -> ErrorKind {
    let lowered = chars::lowercase(error);
    if text::contains(lowered, "429"@) || text::contains(lowered, "rate limit"@) || text::contains(
        lowered,
        "quota"@,
    ) {
        ErrorKind::Overloaded
    } else if text::contains(lowered, "timeout"@) || text::contains(lowered, "timed out"@) {
        ErrorKind::TooSlow
    } else if text::contains(lowered, "empty"@) || text::contains(lowered, "no text content"@) {
        ErrorKind::NoAnswer
    } else {
        ErrorKind::Other
    }
}

/// What users are told of an error: nothing of the error but its kind.
pub open spec fn user_message(kind: ErrorKind, topic: Seq<char>) -> Seq<char> {
    match kind {
        ErrorKind::Overloaded =>
            "⏳ I'm temporarily overloaded with requests right now. Please try \""@ + topic
            + "\" again in about 2 minutes!"@,
        ErrorKind::TooSlow => "⏱️ The research for \""@ + topic
            + "\" took too long. This usually happens with very broad topics. Try being more specific!"@,
        ErrorKind::NoAnswer => "🤔 I couldn't generate a good response for \""@ + topic
            + "\". Try rephrasing your question!"@,
        ErrorKind::Other => "❌ I ran into an issue while researching \""@ + topic
            + "\". Please try again in a moment!"@,
    }
}

/// What users are told of an error: nothing of it but its kind.
pub fn sanitize_error_for_user(error: &str, topic: &str) -> (r: String)
    ensures
        r@ == user_message(error_kind(error@), topic@),
{
    let lowered = chars::to_lowercase(error);
    let l = lowered.as_str();
    if text::has(l, "429") || text::has(l, "rate limit") || text::has(l, "quota") {
        let mut r = text::copy(
            "⏳ I'm temporarily overloaded with requests right now. Please try \"",
        );
        r.append(topic);
        r.append("\" again in about 2 minutes!");
        r
    } else if text::has(l, "timeout") || text::has(l, "timed out") {
        let mut r = text::copy("⏱️ The research for \"");
        r.append(topic);
        r.append(
            "\" took too long. This usually happens with very broad topics. Try being more specific!",
        );
        r
    } else if text::has(l, "empty") || text::has(l, "no text content") {
        let mut r = text::copy("🤔 I couldn't generate a good response for \"");
        r.append(topic);
        r.append("\". Try rephrasing your question!");
        r
    } else {
        let mut r = text::copy("❌ I ran into an issue while researching \"");
        r.append(topic);
        r.append("\". Please try again in a moment!");
        r
    }
}

} // verus!
