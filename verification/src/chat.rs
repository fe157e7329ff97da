//! The conversation on Telegram: what a message or a pressed button changes, and what is answered.

use crate::chars;
use crate::excerpt;
use crate::json;
use crate::messages;
use crate::models;
use crate::models::{
    ConversationState, ConversationView, FeedbackRating, FeedbackView, ReferenceStyle, ReportView,
    ResearchReport, ResearchTier, SourceView, TelegramCallbackQuery, TelegramUpdate, Timestamp,
    UserFeedback,
};
use crate::numbers;
use crate::pieces;
use crate::rendering;
use crate::state;
use crate::state::{AppState, StateView};
use crate::text;
use crate::trim;
use vstd::prelude::*;
use vstd::utf8;

verus! {

broadcast use text::lemma_views_push;

// Updates

/// What an update asks for: a pressed button counts before a message, and a message only where it
/// holds text.
#[derive(Debug)]
pub enum Dispatch {
    Callback { callback: TelegramCallbackQuery },
    Message { chat_id: i64, text: String, username: Option<String> },
    Nothing,
}

/// The name of the user who sent a message, where it is known.
pub open spec fn sender_name(update: TelegramUpdate) -> Option<Seq<char>> {
    match update.message->0.from {
        Some(user) => text::opt_view(user.username),
        None => None,
    }
}

/// What an update asks for.
pub fn dispatch_telegram_update(update: TelegramUpdate) -> (r: Dispatch)
    ensures
        match update.callback_query {
            Some(c) => r == (Dispatch::Callback { callback: c }),
            None => match update.message {
                Some(m) => match m.text {
                    Some(t) => r matches Dispatch::Message { chat_id, text, username } && chat_id
                        == m.chat.id && text@ == t@ && text::opt_view(username) == sender_name(
                        update,
                    ),
                    None => r is Nothing,
                },
                None => r is Nothing,
            },
        },
{
    match update.callback_query {
        Some(callback) => Dispatch::Callback { callback },
        None => match update.message {
            Some(message) => match message.text {
                Some(t) => {
                    let username = match &message.from {
                        Some(user) => text::copy_opt(&user.username),
                        None => None,
                    };
                    Dispatch::Message { chat_id: message.chat.id, text: t, username }
                },
                None => Dispatch::Nothing,
            },
            None => Dispatch::Nothing,
        },
    }
}

// Topics

/// What follows the label of a line that names a reference style.
pub open spec fn style_value(lowered: Seq<char>) -> Option<Seq<char>> {
    match text::strip_prefix(lowered, "reference style:"@) {
        Some(v) => Some(v),
        None => match text::strip_prefix(lowered, "citation style:"@) {
            Some(v) => Some(v),
            None => text::strip_prefix(lowered, "style:"@),
        },
    }
}

/// The lines of a topic, and the style that the last line about a style names.
pub struct TopicLines {
    pub lines: Seq<Seq<char>>,
    pub style: Option<ReferenceStyle>,
}

pub open spec fn topic_lines(ls: Seq<Seq<char>>) -> TopicLines
    decreases ls.len(),
{
    if ls.len() == 0 {
        TopicLines { lines: seq![], style: None }
    } else {
        let before = topic_lines(ls.drop_last());
        let t = trim::trim(ls.last());
        if t.len() == 0 {
            before
        } else {
            match style_value(chars::lowercase(t)) {
                Some(v) => TopicLines {
                    style: ReferenceStyle::asked_for(trim::trim(v)),
                    ..before
                },
                None => TopicLines { lines: before.lines.push(t), ..before },
            }
        }
    }
}

/// The topic of a text: its lines that name no style, on one line; all of it where there are none.
pub open spec fn topic_of(t: Seq<char>) -> Seq<char> {
    let found = topic_lines(pieces::lines(t));
    if found.lines.len() == 0 {
        trim::trim(t)
    } else {
        pieces::join(found.lines, " "@)
    }
}

/// The reference style that a text asks for, APA where it asks for none that is known.
pub open spec fn style_of(t: Seq<char>) -> ReferenceStyle {
    match topic_lines(pieces::lines(t)).style {
        Some(s) => s,
        None => ReferenceStyle::Apa,
    }
}

fn value_of_style(lowered: &str) -> (r: Option<String>)
    ensures
        r is Some <==> style_value(lowered@) is Some,
        r matches Some(v) ==> style_value(lowered@) == Some(v@),
{
    match text::without_prefix(lowered, "reference style:") {
        Some(v) => Some(v),
        None => match text::without_prefix(lowered, "citation style:") {
            Some(v) => Some(v),
            None => text::without_prefix(lowered, "style:"),
        },
    }
}

/// The topic of a text and the reference style that it asks for.
pub fn extract_topic_and_reference_style(t: &str) -> (r: (String, ReferenceStyle))
    ensures
        r.0@ == topic_of(t@),
        r.1 == style_of(t@),
{
    let ls = pieces::lines_of(t);
    let ghost all = pieces::lines(t@);
    let mut kept: Vec<String> = Vec::new();
    let mut style: Option<ReferenceStyle> = None;
    let mut i: usize = 0;
    assert(text::views(kept@) =~= seq![]);
    while i < ls.len()
        invariant
            i <= ls@.len(),
            all == text::views(ls@),
            topic_lines(all.take(i as int)) == (TopicLines { lines: text::views(kept@), style }),
        decreases ls@.len() - i,
    {
        assert(all.take(i + 1).drop_last() == all.take(i as int));
        assert(all.take(i + 1).last() == ls@[i as int]@);
        let trimmed = trim::trimmed(ls[i].as_str());
        if !trimmed.as_str().is_empty() {
            let lowered = chars::to_lowercase(trimmed.as_str());
            match value_of_style(lowered.as_str()) {
                Some(v) => {
                    let value = trim::trimmed(v.as_str());
                    style = ReferenceStyle::from_user_input(value.as_str());
                },
                None => {
                    kept.push(trimmed);
                },
            }
        }
        i += 1;
    }
    assert(all.take(i as int) == all);
    assert(text::views(kept@).len() == kept@.len());
    let topic = if kept.len() == 0 {
        trim::trimmed(t)
    } else {
        pieces::joined(&kept, " ")
    };
    let reference_style = match style {
        Some(s) => s,
        None => ReferenceStyle::default(),
    };
    (topic, reference_style)
}

/// A line that names a style below a topic on one line sets the style, and is no part of the topic.
pub proof fn law_style_line(topic: Seq<char>, style: Seq<char>)
    requires
        topic.len() > 0,
        trim::is_trimmed(topic),
        !topic.contains('\n'),
        style.len() > 0,
        trim::is_trimmed(style),
        !style.contains('\n'),
        utf8::is_ascii_chars(style),
    ensures
        ({
            let t = topic + "\n"@ + ("Reference style: "@ + style);
            style_value(chars::lowercase(topic)) is None ==> topic_of(t) == topic && style_of(t)
                == match ReferenceStyle::asked_for(style) {
                Some(s) => s,
                None => ReferenceStyle::Apa,
            }
        }),
{
    reveal_strlit("\n");
    reveal_strlit("Reference style: ");
    reveal_strlit("reference style:");
    let line = "Reference style: "@ + style;
    let t = topic + "\n"@ + line;
    // The lines are the topic and the line below it.
    assert(line[0] == 'R');
    assert forall|i: int| 0 <= i < line.len() implies line[i] != '\n' by {
        if i >= 17 {
            assert(line[i] == style[i - 17]);
            assert(style.contains(style[i - 17]));
        }
    }
    assert forall|i: int| 0 <= i < topic.len() implies t[i] != '\n' by {
        assert(t[i] == topic[i]);
        assert(topic.contains(topic[i]));
    }
    text::lemma_before(t, '\n');
    text::lemma_before(line, '\n');
    let k = text::before(t, '\n');
    assert(t[topic.len() as int] == '\n');
    assert(k == topic.len());
    assert(t.take(k) =~= topic);
    assert(t.skip(k + 1) =~= line);
    assert(text::before(line, '\n') == line.len());
    assert(pieces::without_return(topic) == topic);
    let ls = pieces::lines(t);
    assert(pieces::lines(line) =~= seq![line]);
    assert(ls =~= seq![topic, line]);
    // The second names the style.
    trim::lemma_trimmed_is_fixed(topic);
    assert(line.last() == style.last());
    assert(trim::is_trimmed(line));
    trim::lemma_trimmed_is_fixed(line);
    assert(utf8::is_ascii_chars(line));
    let low = chars::lowercase(line);
    let value = low.skip("reference style:"@.len() as int);
    assert(low.subrange(0, 16) =~= "reference style:"@);
    assert(style_value(low) == Some(value));
    let lowered = chars::ascii_lowered(style);
    assert(value =~= seq![' '] + lowered);
    assert(value.skip(1) =~= lowered);
    assert(trim::is_trimmed(lowered));
    trim::lemma_trimmed_is_fixed(lowered);
    assert(trim::trim(value) == lowered);
    trim::lemma_trimmed_is_fixed(style);
    assert(utf8::is_ascii_chars(lowered));
    assert(chars::ascii_lowered(lowered) =~= lowered);
    assert(ReferenceStyle::asked_for(lowered) == ReferenceStyle::asked_for(style));
    if style_value(chars::lowercase(topic)) is None {
        assert(ls.drop_last() =~= seq![topic]);
        assert(seq![topic].drop_last() =~= seq![]);
        assert(topic_lines(seq![topic].drop_last()).lines =~= seq![]);
        assert(topic_lines(seq![topic]).lines =~= seq![topic]);
        assert(topic_lines(ls).lines =~= seq![topic]);
    }
}

// Messages

/// What a message leads to: an answer, feedback that is saved and answered, or research.
#[derive(Debug)]
pub enum MessageOutcome {
    Reply { text: String, markdown: bool },
    Feedback { feedback: UserFeedback, reply: String },
    Research {
        topic: String,
        reference_style: ReferenceStyle,
        tier: ResearchTier,
        badge: String,
        opening: String,
    },
}

pub enum OutcomeView {
    Reply { text: Seq<char>, markdown: bool },
    Feedback { feedback: FeedbackView, reply: Seq<char> },
    Research {
        topic: Seq<char>,
        reference_style: ReferenceStyle,
        tier: ResearchTier,
        badge: Seq<char>,
        opening: Seq<char>,
    },
}

impl View for MessageOutcome {
    type V = OutcomeView;

    open spec fn view(&self) -> OutcomeView {
        match self {
            MessageOutcome::Reply { text, markdown } => OutcomeView::Reply {
                text: text@,
                markdown: *markdown,
            },
            MessageOutcome::Feedback { feedback, reply } => OutcomeView::Feedback {
                feedback: feedback@,
                reply: reply@,
            },
            MessageOutcome::Research { topic, reference_style, tier, badge, opening } =>
                OutcomeView::Research {
                topic: topic@,
                reference_style: *reference_style,
                tier: *tier,
                badge: badge@,
                opening: opening@,
            },
        }
    }
}

/// What a chat is told of its state.
pub open spec fn status_message(session: ConversationView) -> Seq<char> {
    match session {
        ConversationView::Idle => "📭 No active research. Send me a topic to get started!"@,
        ConversationView::Researching { topic } => "🔍 Currently researching: \""@ + topic
            + "\"\n\nPlease wait for the report to complete."@,
        ConversationView::AwaitingFeedback { topic } => "📊 Report on \""@ + topic
            + "\" was delivered. Please rate it using the buttons above!"@,
        ConversationView::AwaitingComment { topic, rating } => "💬 You rated the report on \""@
            + topic + "\" as "@ + rating.name() + ". Type a comment or tap Skip."@,
    }
}

fn say_status(session: &ConversationState) -> (r: String)
    ensures
        r@ == status_message(session@),
{
    match session {
        ConversationState::Idle => text::copy(
            "📭 No active research. Send me a topic to get started!",
        ),
        ConversationState::Researching { topic } => {
            let mut r = text::copy("🔍 Currently researching: \"");
            r.append(topic.as_str());
            r.append("\"\n\nPlease wait for the report to complete.");
            r
        },
        ConversationState::AwaitingFeedback { topic } => {
            let mut r = text::copy("📊 Report on \"");
            r.append(topic.as_str());
            r.append("\" was delivered. Please rate it using the buttons above!");
            r
        },
        ConversationState::AwaitingComment { topic, rating } => {
            let mut r = text::copy("💬 You rated the report on \"");
            r.append(topic.as_str());
            r.append("\" as ");
            r.append(rating.label());
            r.append(". Type a comment or tap Skip.");
            r
        },
    }
}

/// The answer to a command, where a message is one.
pub open spec fn command_reply(lowered: Seq<char>, session: ConversationView) -> Option<
    OutcomeView,
> {
    if lowered == "/start"@ || lowered == "hi"@ || lowered == "hello"@ || lowered == "menu"@ {
        Some(OutcomeView::Reply { text: messages::GREETING_MESSAGE@, markdown: true })
    } else if lowered == "/help"@ {
        Some(OutcomeView::Reply { text: messages::HELP_MESSAGE@, markdown: true })
    } else if lowered == "/terms"@ {
        Some(OutcomeView::Reply { text: messages::TERMS_MESSAGE@, markdown: true })
    } else if lowered == "/status"@ {
        Some(OutcomeView::Reply { text: status_message(session), markdown: false })
    } else if lowered == "/feedback"@ {
        Some(
            OutcomeView::Reply {
                text: if session is AwaitingFeedback {
                    "Please use the rating buttons above to rate your last report."@
                } else {
                    "No report pending feedback. Submit a research topic first!"@
                },
                markdown: false,
            },
        )
    } else {
        None
    }
}

fn answer_command(lowered: &str, session: &ConversationState) -> (r: Option<MessageOutcome>)
    ensures
        r is Some <==> command_reply(lowered@, session@) is Some,
        r matches Some(o) ==> command_reply(lowered@, session@) == Some(o@),
{
    if text::same(lowered, "/start") || text::same(lowered, "hi") || text::same(lowered, "hello")
        || text::same(lowered, "menu") {
        return Some(
            MessageOutcome::Reply {
                text: text::copy(messages::GREETING_MESSAGE),
                markdown: true,
            },
        );
    }
    if text::same(lowered, "/help") {
        return Some(
            MessageOutcome::Reply { text: text::copy(messages::HELP_MESSAGE), markdown: true },
        );
    }
    if text::same(lowered, "/terms") {
        return Some(
            MessageOutcome::Reply { text: text::copy(messages::TERMS_MESSAGE), markdown: true },
        );
    }
    if text::same(lowered, "/status") {
        return Some(MessageOutcome::Reply { text: say_status(session), markdown: false });
    }
    if text::same(lowered, "/feedback") {
        let reply = match session {
            ConversationState::AwaitingFeedback { topic } => text::copy(
                "Please use the rating buttons above to rate your last report.",
            ),
            _ => text::copy("No report pending feedback. Submit a research topic first!"),
        };
        return Some(MessageOutcome::Reply { text: reply, markdown: false });
    }
    None
}

/// The state after feedback was given: it is kept, and the conversation is idle.
pub open spec fn after_feedback(s: StateView, chat_id: i64, f: FeedbackView) -> StateView {
    StateView {
        feedback: state::cached(s.feedback, f),
        sessions: s.sessions.insert(chat_id, ConversationView::Idle),
        ..s
    }
}

fn take_feedback(state: &mut AppState, chat_id: i64, feedback: UserFeedback)
    ensures
        final(state)@ == after_feedback(old(state)@, chat_id, feedback@),
{
    state::cache_feedback(state, feedback);
    state::set_session(state, chat_id, ConversationState::Idle);
}

/// The tier of the reports: all of it while the bot is tested, else a preview.
pub open spec fn tier_on_offer(testing_mode: bool) -> ResearchTier {
    if testing_mode {
        ResearchTier::Complete
    } else {
        ResearchTier::Preview
    }
}

/// How the tier is shown.
pub open spec fn tier_badge(testing_mode: bool) -> Seq<char> {
    if testing_mode {
        "🧪 *Beta Testing* — Full report (FREE)"@
    } else {
        ResearchTier::Preview.name()
    }
}

/// What a chat is told of its research.
pub open spec fn research_message(
    topic: Seq<char>,
    badge: Seq<char>,
    style: ReferenceStyle,
    rest: Seq<char>,
) -> Seq<char> {
    "🔍 *Professor is researching:* \""@ + topic + "\"\n\n"@ + badge + "\nReference style: "@
        + style.name() + "\n\n"@ + rest
}

fn say_research(topic: &str, badge: &str, style: &ReferenceStyle, rest: &str) -> (r: String)
    ensures
        r@ == research_message(topic@, badge@, *style, rest@),
{
    let mut r = text::copy("🔍 *Professor is researching:* \"");
    r.append(topic);
    r.append("\"\n\n");
    r.append(badge);
    r.append("\nReference style: ");
    r.append(style.label());
    r.append("\n\n");
    r.append(rest);
    r
}

/// What a message that asks for research leads to: it counts for the rate limit even where it holds
/// no topic.
pub open spec fn research_outcome(s: StateView, chat_id: i64, t: Seq<char>, now: u64) -> (
    StateView,
    OutcomeView,
) {
    let max = s.config.max_requests_per_hour;
    let times = state::times_of(s.rate_limits, chat_id);
    let counted = StateView {
        rate_limits: s.rate_limits.insert(chat_id, state::times_after(times, now, max)),
        ..s
    };
    let clean = excerpt::sanitized(t);
    let topic = topic_of(clean);
    let style = style_of(clean);
    let testing = s.config.testing_mode;
    if !state::is_admitted(times, now, max) {
        (counted, OutcomeView::Reply { text: messages::RATE_LIMIT_MESSAGE@, markdown: false })
    } else if clean.len() == 0 {
        (
            counted,
            OutcomeView::Reply { text: "Please send a valid research topic."@, markdown: false },
        )
    } else {
        (
            StateView {
                sessions: s.sessions.insert(chat_id, ConversationView::Researching { topic }),
                ..counted
            },
            OutcomeView::Research {
                topic,
                reference_style: style,
                tier: tier_on_offer(testing),
                badge: tier_badge(testing),
                opening: research_message(
                    topic,
                    tier_badge(testing),
                    style,
                    "⏳ *Starting research engine...*"@,
                ),
            },
        )
    }
}

/// What a message leads to, and the state after it. Commands come first; then a comment that is
/// awaited; while research is in progress nothing else is taken; all else is a topic.
pub open spec fn message_outcome(
    s: StateView,
    chat_id: i64,
    t: Seq<char>,
    username: Option<Seq<char>>,
    timestamp: Timestamp,
    now: u64,
) -> (StateView, OutcomeView) {
    let session = state::session_of(s.sessions, chat_id);
    match command_reply(chars::lowercase(trim::trim(t)), session) {
        Some(reply) => (s, reply),
        None => match session {
            ConversationView::AwaitingComment { topic, rating } => {
                let f = FeedbackView {
                    chat_id: chat_id as int,
                    username,
                    topic,
                    rating,
                    comment: Some(trim::trim(t)),
                    timestamp,
                };
                (
                    after_feedback(s, chat_id, f),
                    OutcomeView::Feedback {
                        feedback: f,
                        reply: "✅ Thank you for your detailed feedback! Professor AI will learn from this.\n\nSend another topic whenever you're ready."@,
                    },
                )
            },
            ConversationView::Researching { .. } => (
                s,
                OutcomeView::Reply {
                    text: messages::RESEARCH_IN_PROGRESS_MESSAGE@,
                    markdown: false,
                },
            ),
            _ => research_outcome(s, chat_id, t, now),
        },
    }
}

fn start_research(state: &mut AppState, chat_id: i64, t: &str, now: u64) -> (r: MessageOutcome)
    ensures
        (final(state)@, r@) == research_outcome(old(state)@, chat_id, t@, now),
{
    if !state::check_rate_limit(state, chat_id, now) {
        return MessageOutcome::Reply {
            text: text::copy(messages::RATE_LIMIT_MESSAGE),
            markdown: false,
        };
    }
    let clean = excerpt::sanitize_topic(t);
    if clean.as_str().is_empty() {
        return MessageOutcome::Reply {
            text: text::copy("Please send a valid research topic."),
            markdown: false,
        };
    }
    let (topic, reference_style) = extract_topic_and_reference_style(clean.as_str());
    state::set_session(
        state,
        chat_id,
        ConversationState::Researching { topic: text::copy(topic.as_str()) },
    );
    let tier = if state.config.testing_mode {
        ResearchTier::Complete
    } else {
        ResearchTier::Preview
    };
    let badge = if state.config.testing_mode {
        text::copy("🧪 *Beta Testing* — Full report (FREE)")
    } else {
        text::copy(tier.label())
    };
    let opening = say_research(
        topic.as_str(),
        badge.as_str(),
        &reference_style,
        "⏳ *Starting research engine...*",
    );
    MessageOutcome::Research { topic, reference_style, tier, badge, opening }
}

/// What a message leads to.
pub fn handle_user_message(
    state: &mut AppState,
    chat_id: i64,
    t: &str,
    username: &Option<String>,
    timestamp: Timestamp,
    now: u64,
) -> (r: MessageOutcome)
    ensures
        (final(state)@, r@) == message_outcome(
            old(state)@,
            chat_id,
            t@,
            text::opt_view(*username),
            timestamp,
            now,
        ),
{
    let trimmed = trim::trimmed(t);
    let lowered = chars::to_lowercase(trimmed.as_str());
    let session = state::get_session(state, chat_id);
    match answer_command(lowered.as_str(), &session) {
        Some(reply) => {
            return reply;
        },
        None => {},
    }
    match session {
        ConversationState::AwaitingComment { topic, rating } => {
            let feedback = UserFeedback {
                chat_id,
                username: text::copy_opt(username),
                topic,
                rating,
                comment: Some(trimmed),
                timestamp,
            };
            let copy = feedback.clone();
            take_feedback(state, chat_id, copy);
            MessageOutcome::Feedback {
                feedback,
                reply: text::copy(
                    "✅ Thank you for your detailed feedback! Professor AI will learn from this.\n\nSend another topic whenever you're ready.",
                ),
            }
        },
        ConversationState::Researching { topic } => MessageOutcome::Reply {
            text: text::copy(messages::RESEARCH_IN_PROGRESS_MESSAGE),
            markdown: false,
        },
        _ => start_research(state, chat_id, t, now),
    }
}

/// While research is in progress a chat cannot start more: nothing but commands is answered, and
/// the state stays as it is.
pub proof fn law_one_research_at_a_time(
    s: StateView,
    chat_id: i64,
    t: Seq<char>,
    username: Option<Seq<char>>,
    timestamp: Timestamp,
    now: u64,
)
    requires
        state::session_of(s.sessions, chat_id) is Researching,
    ensures
        ({
            let (after, outcome) = message_outcome(s, chat_id, t, username, timestamp, now);
            after == s && outcome is Reply
        }),
{
}

/// A message of one chat changes nothing for another.
pub proof fn law_chats_are_apart(
    s: StateView,
    chat_id: i64,
    other: i64,
    t: Seq<char>,
    username: Option<Seq<char>>,
    timestamp: Timestamp,
    now: u64,
)
    requires
        other != chat_id,
    ensures
        ({
            let after = message_outcome(s, chat_id, t, username, timestamp, now).0;
            &&& state::session_of(after.sessions, other) == state::session_of(s.sessions, other)
            &&& state::times_of(after.rate_limits, other) == state::times_of(s.rate_limits, other)
            &&& after.chat_history == s.chat_history
            &&& after.active_tasks == s.active_tasks
            &&& after.config == s.config
        }),
{
}

/// A message keeps the limits of what is remembered.
pub proof fn law_messages_keep_bounds(
    s: StateView,
    chat_id: i64,
    t: Seq<char>,
    username: Option<Seq<char>>,
    timestamp: Timestamp,
    now: u64,
)
    requires
        state::is_bounded(s),
    ensures
        state::is_bounded(message_outcome(s, chat_id, t, username, timestamp, now).0),
{
    let topic = topic_of(excerpt::sanitized(t));
    let f = match state::session_of(s.sessions, chat_id) {
        ConversationView::AwaitingComment { topic, rating } => FeedbackView {
            chat_id: chat_id as int,
            username,
            topic,
            rating,
            comment: Some(trim::trim(t)),
            timestamp,
        },
        _ => arbitrary(),
    };
    state::law_bounds_are_kept(s, chat_id, ConversationView::Idle, t, f, now);
    let max = s.config.max_requests_per_hour;
    let times = state::times_of(s.rate_limits, chat_id);
    let counted = StateView {
        rate_limits: s.rate_limits.insert(chat_id, state::times_after(times, now, max)),
        ..s
    };
    state::law_bounds_are_kept(counted, chat_id, ConversationView::Researching { topic }, t, f, now);
}

// Buttons

/// What a pressed button leads to: nothing, feedback that is saved and answered, or the question
/// for a comment.
#[derive(Debug)]
pub enum CallbackOutcome {
    Nothing,
    Feedback { feedback: UserFeedback, reply: String },
    AskComment { prompt: String },
}

pub enum CallbackView {
    Nothing,
    Feedback { feedback: FeedbackView, reply: Seq<char> },
    AskComment { prompt: Seq<char> },
}

impl View for CallbackOutcome {
    type V = CallbackView;

    open spec fn view(&self) -> CallbackView {
        match self {
            CallbackOutcome::Nothing => CallbackView::Nothing,
            CallbackOutcome::Feedback { feedback, reply } => CallbackView::Feedback {
                feedback: feedback@,
                reply: reply@,
            },
            CallbackOutcome::AskComment { prompt } => CallbackView::AskComment { prompt: prompt@ },
        }
    }
}

/// The chat that a button was pressed in.
pub open spec fn callback_chat(callback: TelegramCallbackQuery) -> i64 {
    match callback.message {
        Some(m) => m.chat.id,
        None => 0,
    }
}

/// The chat that a button was pressed in.
pub fn callback_chat_id(callback: &TelegramCallbackQuery) -> (r: i64)
    ensures
        r == callback_chat(*callback),
{
    match &callback.message {
        Some(m) => m.chat.id,
        None => 0,
    }
}

/// How a comment is asked for.
pub open spec fn comment_prompt(rating: FeedbackRating) -> Seq<char> {
    "Thank you for rating: "@ + rating.name()
        + "\\!\n\n💬 Want to add specific feedback? Just type it below, or tap *Skip* to finish\\."@
}

/// What a pressed button leads to, and the state after it: a rating counts while one is awaited,
/// and so does going without a comment.
pub open spec fn callback_outcome(
    s: StateView,
    callback: TelegramCallbackQuery,
    timestamp: Timestamp,
) -> (StateView, CallbackView) {
    let chat_id = callback_chat(callback);
    let data = json::or(text::opt_view(callback.data), ""@);
    let session = state::session_of(s.sessions, chat_id);
    if data == "skip_comment"@ {
        match session {
            ConversationView::AwaitingComment { topic, rating } => {
                let f = FeedbackView {
                    chat_id: chat_id as int,
                    username: text::opt_view(callback.from.username),
                    topic,
                    rating,
                    comment: None,
                    timestamp,
                };
                (
                    after_feedback(s, chat_id, f),
                    CallbackView::Feedback {
                        feedback: f,
                        reply: "✅ Thank you for your feedback! It helps Professor AI improve.\n\nSend another topic whenever you're ready."@,
                    },
                )
            },
            _ => (s, CallbackView::Nothing),
        }
    } else {
        match (FeedbackRating::named(data), session) {
            (Some(rating), ConversationView::AwaitingFeedback { topic }) => (
                StateView {
                    sessions: s.sessions.insert(
                        chat_id,
                        ConversationView::AwaitingComment { topic, rating },
                    ),
                    ..s
                },
                CallbackView::AskComment { prompt: comment_prompt(rating) },
            ),
            _ => (s, CallbackView::Nothing),
        }
    }
}

/// What a pressed button leads to.
pub fn handle_callback_query(
    state: &mut AppState,
    callback: &TelegramCallbackQuery,
    timestamp: Timestamp,
) -> (r: CallbackOutcome)
    ensures
        (final(state)@, r@) == callback_outcome(old(state)@, *callback, timestamp),
{
    let chat_id = callback_chat_id(callback);
    let data = match &callback.data {
        Some(d) => text::copy(d.as_str()),
        None => text::copy(""),
    };
    let session = state::get_session(state, chat_id);
    if text::same(data.as_str(), "skip_comment") {
        return match session {
            ConversationState::AwaitingComment { topic, rating } => {
                let feedback = UserFeedback {
                    chat_id,
                    username: text::copy_opt(&callback.from.username),
                    topic,
                    rating,
                    comment: None,
                    timestamp,
                };
                let copy = feedback.clone();
                take_feedback(state, chat_id, copy);
                CallbackOutcome::Feedback {
                    feedback,
                    reply: text::copy(
                        "✅ Thank you for your feedback! It helps Professor AI improve.\n\nSend another topic whenever you're ready.",
                    ),
                }
            },
            _ => CallbackOutcome::Nothing,
        };
    }
    match FeedbackRating::from_callback_data(data.as_str()) {
        Some(rating) => match session {
            ConversationState::AwaitingFeedback { topic } => {
                state::set_session(
                    state,
                    chat_id,
                    ConversationState::AwaitingComment { topic, rating },
                );
                let mut prompt = text::copy("Thank you for rating: ");
                prompt.append(rating.label());
                prompt.append(
                    "\\!\n\n💬 Want to add specific feedback? Just type it below, or tap *Skip* to finish\\.",
                );
                CallbackOutcome::AskComment { prompt }
            },
            _ => CallbackOutcome::Nothing,
        },
        None => CallbackOutcome::Nothing,
    }
}

/// Feedback runs its course: after a report was delivered, a pressed rating and then a comment that
/// is no command (or none) give feedback on that topic with that rating and comment, and leave the
/// conversation idle.
pub proof fn law_feedback_runs_its_course(
    s: StateView,
    callback: TelegramCallbackQuery,
    skip: TelegramCallbackQuery,
    rating: FeedbackRating,
    topic: Seq<char>,
    comment: Seq<char>,
    username: Option<Seq<char>>,
    pressed: Timestamp,
    given: Timestamp,
    now: u64,
)
    requires
        callback_chat(skip) == callback_chat(callback),
        text::opt_view(callback.data) == Some(rating.data()),
        text::opt_view(skip.data) == Some("skip_comment"@),
        state::session_of(s.sessions, callback_chat(callback)) == (
        ConversationView::AwaitingFeedback { topic }),
    ensures
        ({
            let chat = callback_chat(callback);
            let rated = callback_outcome(s, callback, pressed).0;
            let (told, outcome) = message_outcome(rated, chat, comment, username, given, now);
            let (skipped, silent) = callback_outcome(rated, skip, given);
            let lowered = chars::lowercase(trim::trim(comment));
            &&& command_reply(lowered, ConversationView::Idle) is None ==> (
            outcome matches OutcomeView::Feedback { feedback: f, .. } && f.topic == topic
                && f.rating == rating && f.comment == Some(trim::trim(comment)) && told.feedback[0]
                == f && state::session_of(told.sessions, chat) is Idle)
            &&& silent matches CallbackView::Feedback { feedback: f, .. } && f.topic == topic
                && f.rating == rating && f.comment is None && skipped.feedback[0] == f
            &&& state::session_of(skipped.sessions, chat) is Idle
        }),
{
    let chat = callback_chat(callback);
    models::law_callback_data_reads_back(rating);
    reveal_strlit("skip_comment");
    reveal_strlit("rate_excellent");
    reveal_strlit("rate_good");
    reveal_strlit("rate_needs_work");
    reveal_strlit("rate_poor");
    assert(rating.data() != "skip_comment"@) by {
        assert(rating.data()[0] == 'r');
        assert("skip_comment"@[0] == 's');
    }
    let rated = callback_outcome(s, callback, pressed).0;
    assert(state::session_of(rated.sessions, chat) == (ConversationView::AwaitingComment {
        topic,
        rating,
    }));
}

/// A button that is pressed in one chat changes nothing for another, and keeps the limits of what is
/// remembered.
pub proof fn law_buttons_are_apart(
    s: StateView,
    callback: TelegramCallbackQuery,
    timestamp: Timestamp,
    other: i64,
)
    requires
        other != callback_chat(callback),
    ensures
        ({
            let after = callback_outcome(s, callback, timestamp).0;
            &&& state::session_of(after.sessions, other) == state::session_of(s.sessions, other)
            &&& after.rate_limits == s.rate_limits
            &&& after.chat_history == s.chat_history
            &&& after.active_tasks == s.active_tasks
            &&& after.config == s.config
            &&& state::is_bounded(s) ==> state::is_bounded(after)
        }),
{
}

/// The buttons with which a report is rated, each with what it sends.
pub fn feedback_buttons() -> (r: Vec<Vec<(String, String)>>)
    ensures
        r@.len() == 2,
        r@[0]@.len() == 2,
        r@[1]@.len() == 2,
        r@[0]@[0].0@ == FeedbackRating::Excellent.name(),
        r@[0]@[0].1@ == FeedbackRating::Excellent.data(),
        r@[0]@[1].0@ == FeedbackRating::Good.name(),
        r@[0]@[1].1@ == FeedbackRating::Good.data(),
        r@[1]@[0].0@ == FeedbackRating::NeedsWork.name(),
        r@[1]@[0].1@ == FeedbackRating::NeedsWork.data(),
        r@[1]@[1].0@ == FeedbackRating::Poor.name(),
        r@[1]@[1].1@ == FeedbackRating::Poor.data(),
{
    vec![
        vec![
            (text::copy("⭐ Excellent"), text::copy("rate_excellent")),
            (text::copy("👍 Good"), text::copy("rate_good")),
        ],
        vec![
            (text::copy("🔧 Needs Work"), text::copy("rate_needs_work")),
            (text::copy("👎 Poor"), text::copy("rate_poor")),
        ],
    ]
}

/// How a rating is asked for.
pub const FEEDBACK_PROMPT: &'static str =
    "📊 *How was this report?*\n\nYour feedback helps Professor AI improve\\. Please rate the quality:";

/// The button with which no comment is given.
pub fn comment_buttons() -> (r: Vec<Vec<(String, String)>>)
    ensures
        r@.len() == 1,
        r@[0]@.len() == 1,
        r@[0]@[0].0@ == "⏭ Skip Comment"@,
        r@[0]@[0].1@ == "skip_comment"@,
{
    vec![vec![(text::copy("⏭ Skip Comment"), text::copy("skip_comment"))]]
}

// Reports

pub open spec fn update_lines(updates: Seq<Seq<char>>) -> Seq<Seq<char>> {
    Seq::new(updates.len(), |i: int| "— "@ + updates[i])
}

/// What a chat is shown while research is in progress.
pub open spec fn progress_message(
    topic: Seq<char>,
    badge: Seq<char>,
    style: ReferenceStyle,
    updates: Seq<Seq<char>>,
) -> Seq<char> {
    research_message(
        topic,
        badge,
        style,
        pieces::join(update_lines(updates), "\n"@) + "\n\n⏳ *Working...*"@,
    )
}

/// What a chat is shown while research is in progress, with all that happened so far.
pub fn progress_text(topic: &str, badge: &str, style: &ReferenceStyle, updates: &Vec<String>) -> (r:
    String)
    ensures
        r@ == progress_message(topic@, badge@, *style, text::views(updates@)),
{
    let ghost all = text::views(updates@);
    let mut lines: Vec<String> = Vec::new();
    let mut i: usize = 0;
    assert(text::views(lines@) =~= update_lines(all).take(0));
    while i < updates.len()
        invariant
            i <= updates@.len(),
            all == text::views(updates@),
            text::views(lines@) == update_lines(all).take(i as int),
        decreases updates@.len() - i,
    {
        assert(all[i as int] == updates@[i as int]@);
        let mut line = text::copy("— ");
        line.append(updates[i].as_str());
        assert(update_lines(all).take(i + 1) =~= update_lines(all).take(i as int).push(line@));
        lines.push(line);
        i += 1;
    }
    assert(update_lines(all).take(i as int) =~= update_lines(all));
    let mut rest = pieces::joined(&lines, "\n");
    rest.append("\n\n⏳ *Working...*");
    say_research(topic, badge, style, rest.as_str())
}

/// How a finished report is delivered: messages before the list of sources, that list in parts
/// (nothing where it cannot be divided), the PDF with its caption, and a closing message.
#[derive(Debug)]
pub struct Delivery {
    pub opening: Vec<String>,
    pub materials: Option<Vec<String>>,
    pub upload: Option<(String, String)>,
    pub closing: String,
}

pub open spec fn report_intro(r: ReportView) -> Seq<char> {
    "Research complete.\n\nTitle: "@ + r.title + "\nDeliverable: "@ + r.deliverable
        + "\nReference style: "@ + r.reference_style + "\nWord count: "@ + numbers::decimal(
        r.total_word_count as nat,
    ) + "\nEstimated pages: "@ + numbers::decimal(r.estimated_page_count as nat)
        + "\nCitation target: "@ + numbers::decimal(r.citations_target as nat) + "\n"@
}

pub open spec fn opening_messages(r: ReportView) -> Seq<Seq<char>> {
    match r.abstract_preview {
        Some(p) => seq![report_intro(r), "Abstract preview:\n\n"@ + p],
        None => seq![report_intro(r)],
    }
}

pub open spec fn material_entries(list: Seq<SourceView>) -> Seq<Seq<char>> {
    Seq::new(
        list.len(),
        |i: int| rendering::ordinal(i) + ". "@ + list[i].title + "\n"@ + list[i].url + "\n\n"@,
    )
}

pub open spec fn materials_text(list: Seq<SourceView>) -> Seq<char> {
    "📚 Materials Evaluated\n\n"@ + pieces::join(material_entries(list), ""@)
}

/// The path of a file of the report, where it has one.
pub open spec fn saved_line(label: Seq<char>, path: Option<Seq<char>>) -> Seq<char> {
    match path {
        Some(p) => label + p,
        None => seq![],
    }
}

pub open spec fn closing_message(r: ReportView) -> Seq<char> {
    let base =
        "✅ Your draft has been assembled with sections, references, and quality checks."@;
    match r.artifacts {
        Some(a) => base + saved_line("\nMarkdown saved to: "@, a.markdown_path) + saved_line(
            "\nJSON package saved to: "@,
            a.json_path,
        ) + saved_line("\nPDF saved to: "@, a.pdf_path),
        None => base,
    }
}

pub open spec fn report_caption(r: ReportView) -> Seq<char> {
    "*"@ + r.title + "*\n"@ + r.deliverable + "\n"@ + r.reference_style + "\nEstimated pages: "@
        + numbers::decimal(r.estimated_page_count as nat)
}

/// The PDF of a report, where it has one.
pub open spec fn pdf_of(r: ReportView) -> Option<Seq<char>> {
    match r.artifacts {
        Some(a) => a.pdf_path,
        None => None,
    }
}

fn list_materials(report: &ResearchReport) -> (r: String)
    ensures
        r@ == materials_text(report@.sources),
{
    let list = &report.sources;
    let ghost all = report@.sources;
    let mut entries: Vec<String> = Vec::new();
    let mut i: usize = 0;
    assert(text::views(entries@) =~= material_entries(all).take(0));
    while i < list.len()
        invariant
            i <= list@.len(),
            all == models::source_views(list@),
            text::views(entries@) == material_entries(all).take(i as int),
        decreases list@.len() - i,
    {
        assert(all[i as int] == list@[i as int]@);
        let mut entry = numbers::decimal_text(i + 1);
        entry.append(". ");
        entry.append(list[i].title.as_str());
        entry.append("\n");
        entry.append(list[i].url.as_str());
        entry.append("\n\n");
        assert(material_entries(all).take(i + 1) =~= material_entries(all).take(i as int).push(
            entry@,
        ));
        entries.push(entry);
        i += 1;
    }
    assert(material_entries(all).take(i as int) =~= material_entries(all));
    let mut r = text::copy("📚 Materials Evaluated\n\n");
    let block = pieces::joined(&entries, "");
    r.append(block.as_str());
    r
}

fn append_saved(r: &mut String, label: &str, path: &Option<String>)
    ensures
        final(r)@ == old(r)@ + saved_line(label@, text::opt_view(*path)),
{
    match path {
        Some(p) => {
            let mut line = text::copy(label);
            line.append(p.as_str());
            r.append(line.as_str());
        },
        None => {
            assert(r@ + seq![] =~= r@);
        },
    }
}

/// How a finished report is delivered.
pub fn deliver_report(report: &ResearchReport) -> (r: Delivery)
    ensures
        text::views(r.opening@) == opening_messages(report@),
        report@.sources.len() == 0 ==> (r.materials matches Some(list) && list@.len() == 0),
        report@.sources.len() > 0 ==> match r.materials {
            Some(list) => excerpt::splits(materials_text(report@.sources), 3_800) && text::views(
                list@,
            ) == excerpt::messages(materials_text(report@.sources), 3_800),
            None => !excerpt::splits(materials_text(report@.sources), 3_800),
        },
        match r.upload {
            Some((path, caption)) => pdf_of(report@) == Some(path@) && caption@ == report_caption(
                report@,
            ),
            None => pdf_of(report@) is None,
        },
        r.closing@ == closing_message(report@),
{
    let mut intro = text::copy("Research complete.\n\nTitle: ");
    intro.append(report.title.as_str());
    intro.append("\nDeliverable: ");
    intro.append(report.deliverable.as_str());
    intro.append("\nReference style: ");
    intro.append(report.reference_style.as_str());
    intro.append("\nWord count: ");
    numbers::push_decimal(&mut intro, report.total_word_count as u64);
    intro.append("\nEstimated pages: ");
    numbers::push_decimal(&mut intro, report.estimated_page_count as u64);
    intro.append("\nCitation target: ");
    numbers::push_decimal(&mut intro, report.citations_target as u64);
    intro.append("\n");
    let mut opening: Vec<String> = Vec::new();
    opening.push(intro);
    match &report.abstract_preview {
        Some(p) => {
            let mut preview = text::copy("Abstract preview:\n\n");
            preview.append(p.as_str());
            opening.push(preview);
        },
        None => {},
    }
    assert(text::views(opening@) =~= opening_messages(report@));
    let materials = if report.sources.len() == 0 {
        Some(Vec::new())
    } else {
        let list = list_materials(report);
        excerpt::try_split_message(list.as_str(), 3_800)
    };
    let mut closing = text::copy(
        "✅ Your draft has been assembled with sections, references, and quality checks.",
    );
    let mut upload: Option<(String, String)> = None;
    match &report.artifacts {
        Some(a) => {
            append_saved(&mut closing, "\nMarkdown saved to: ", &a.markdown_path);
            append_saved(&mut closing, "\nJSON package saved to: ", &a.json_path);
            append_saved(&mut closing, "\nPDF saved to: ", &a.pdf_path);
            match &a.pdf_path {
                Some(p) => {
                    let mut caption = text::copy("*");
                    caption.append(report.title.as_str());
                    caption.append("*\n");
                    caption.append(report.deliverable.as_str());
                    caption.append("\n");
                    caption.append(report.reference_style.as_str());
                    caption.append("\nEstimated pages: ");
                    numbers::push_decimal(&mut caption, report.estimated_page_count as u64);
                    upload = Some((text::copy(p.as_str()), caption));
                },
                None => {},
            }
        },
        None => {},
    }
    Delivery { opening, materials, upload, closing }
}

/// After a report was delivered a rating is awaited.
pub fn finish_research(state: &mut AppState, chat_id: i64, topic: &str)
    ensures
        final(state)@ == (StateView {
            sessions: old(state)@.sessions.insert(
                chat_id,
                ConversationView::AwaitingFeedback { topic: topic@ },
            ),
            ..old(state)@
        }),
{
    state::set_session(
        state,
        chat_id,
        ConversationState::AwaitingFeedback { topic: text::copy(topic) },
    );
}

/// After research failed the conversation is idle; what the chat is told.
pub fn fail_research(state: &mut AppState, chat_id: i64, error: &str) -> (r: String)
    ensures
        final(state)@ == (StateView {
            sessions: old(state)@.sessions.insert(chat_id, ConversationView::Idle),
            ..old(state)@
        }),
        r@ == "I encountered an issue while preparing the report.\nError: "@ + error@
            + "\n\nPlease try again."@,
{
    state::set_session(state, chat_id, ConversationState::Idle);
    let mut r = text::copy("I encountered an issue while preparing the report.\nError: ");
    r.append(error);
    r.append("\n\nPlease try again.");
    r
}

} // verus!
