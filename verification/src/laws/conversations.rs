//! Conversations: what a message or a button leads to in each state of a chat, and what is told.

use crate::bridge;
use crate::bridge::BridgeView;
use crate::chars;
use crate::chat;
use crate::chat::{CallbackView, OutcomeView};
use crate::excerpt;
use crate::feedback;
use crate::laws::finding;
use crate::messages;
use crate::models::{
    ConversationView, FeedbackRating, FeedbackView, ReferenceStyle, ReportView,
    TelegramCallbackQuery, Timestamp,
};
use crate::numbers;
use crate::pieces;
use crate::prompts;
use crate::state;
use crate::state::StateView;
use crate::text;
use crate::trim;
use vstd::prelude::*;

verus! {

broadcast use finding::group_holds;

// Telegram

/// Whether a message is a command or a greeting, in any case of letters.
pub open spec fn is_command(t: Seq<char>) -> bool {
    let c = chars::lowercase(trim::trim(t));
    ||| c == "/start"@
    ||| c == "hi"@
    ||| c == "hello"@
    ||| c == "menu"@
    ||| c == "/help"@
    ||| c == "/terms"@
    ||| c == "/status"@
    ||| c == "/feedback"@
}

/// The number of requests of a chat within the last hour.
pub open spec fn requests_within_the_hour(s: StateView, key: i64, now: u64) -> nat {
    state::times_of(s.rate_limits, key).filter(
        |t: u64| now - t < 3_600_000_000_000,
    ).len()
}

proof fn lemma_recent(s: StateView, key: i64, now: u64)
    ensures
        state::is_admitted(
            state::times_of(s.rate_limits, key),
            now,
            s.config.max_requests_per_hour,
        ) <==> requests_within_the_hour(s, key, now) < s.config.max_requests_per_hour,
{
    let test = |t: u64| now - t < 3_600_000_000_000;
    assert(state::recent_test(now) =~= test);
}

/// A topic starts research wherever none is in progress and no comment is awaited: a message that is
/// no command and holds a topic, within the limit of requests, leads to research on that topic; the
/// chat is researching it from then on, and the request counts.
pub proof fn law_topics_start_research(
    s: StateView,
    chat_id: i64,
    t: Seq<char>,
    username: Option<Seq<char>>,
    timestamp: Timestamp,
    now: u64,
)
    requires
        state::session_of(s.sessions, chat_id) is Idle || state::session_of(s.sessions, chat_id)
            is AwaitingFeedback,
        !is_command(t),
        excerpt::sanitized(t).len() > 0,
        requests_within_the_hour(s, chat_id, now) < s.config.max_requests_per_hour,
    ensures
        ({
            let (after, outcome) = chat::message_outcome(s, chat_id, t, username, timestamp, now);
            let asked = chat::topic_of(excerpt::sanitized(t));
            &&& outcome matches OutcomeView::Research {
                topic,
                reference_style,
                tier,
                badge,
                opening,
            }
            &&& topic == asked
            &&& reference_style == chat::style_of(excerpt::sanitized(t))
            &&& s.config.testing_mode ==> tier is Complete
            &&& !s.config.testing_mode ==> tier is Preview
            &&& text::contains(opening, asked)
            &&& text::contains(opening, badge)
            &&& text::contains(opening, reference_style.name())
            &&& state::session_of(after.sessions, chat_id) == (ConversationView::Researching {
                topic: asked,
            })
            &&& state::times_of(after.rate_limits, chat_id).len() == requests_within_the_hour(
                s,
                chat_id,
                now,
            ) + 1
            &&& state::times_of(after.rate_limits, chat_id).last() == now
            &&& after.feedback == s.feedback
        }),
{
    lemma_recent(s, chat_id, now);
    let test = |t: u64| now - t < 3_600_000_000_000;
    assert(state::recent_test(now) =~= test);
}

/// Where a chat has used up its requests a topic is refused, and where a message holds no topic one
/// is asked for; the conversation stays where it was.
pub proof fn law_topics_are_refused(
    s: StateView,
    chat_id: i64,
    t: Seq<char>,
    username: Option<Seq<char>>,
    timestamp: Timestamp,
    now: u64,
)
    requires
        state::session_of(s.sessions, chat_id) is Idle || state::session_of(s.sessions, chat_id)
            is AwaitingFeedback,
        !is_command(t),
    ensures
        ({
            let (after, outcome) = chat::message_outcome(s, chat_id, t, username, timestamp, now);
            let used = requests_within_the_hour(s, chat_id, now) >= s.config.max_requests_per_hour;
            &&& used ==> outcome == (OutcomeView::Reply {
                text: messages::RATE_LIMIT_MESSAGE@,
                markdown: false,
            }) && after.sessions == s.sessions
            &&& !used && excerpt::sanitized(t).len() == 0 ==> outcome == (OutcomeView::Reply {
                text: "Please send a valid research topic."@,
                markdown: false,
            }) && after.sessions == s.sessions
        }),
{
    lemma_recent(s, chat_id, now);
}

/// A command is answered in every state of a chat, and changes nothing: greetings with the greeting,
/// the others with what they ask for.
#[verifier::rlimit(40)]
pub proof fn law_commands_are_answered(
    s: StateView,
    chat_id: i64,
    t: Seq<char>,
    username: Option<Seq<char>>,
    timestamp: Timestamp,
    now: u64,
)
    requires
        is_command(t),
    ensures
        ({
            let (after, outcome) = chat::message_outcome(s, chat_id, t, username, timestamp, now);
            let c = chars::lowercase(trim::trim(t));
            &&& after == s
            &&& outcome matches OutcomeView::Reply { text: told, .. }
            &&& c == "/start"@ || c == "hi"@ || c == "hello"@ || c == "menu"@ ==> told
                == messages::GREETING_MESSAGE@
            &&& c == "/help"@ ==> told == messages::HELP_MESSAGE@
            &&& c == "/terms"@ ==> told == messages::TERMS_MESSAGE@
            &&& c == "/status"@ ==> match state::session_of(s.sessions, chat_id) {
                ConversationView::Idle => text::contains(told, "No active research."@),
                ConversationView::Researching { topic } => text::contains(
                    told,
                    "Currently researching: \""@ + topic,
                ),
                ConversationView::AwaitingFeedback { topic } => text::contains(
                    told,
                    "Report on \""@ + topic,
                ),
                ConversationView::AwaitingComment { topic, rating } => text::contains(
                    told,
                    "You rated the report on \""@ + topic + "\" as "@ + rating.name(),
                ),
            }
        }),
{
    lemma_commands_differ();
    reveal_strlit("📭 No active research. Send me a topic to get started!");
    reveal_strlit("No active research.");
    reveal_strlit("🔍 Currently researching: \"");
    reveal_strlit("Currently researching: \"");
    reveal_strlit("🔍 ");
    reveal_strlit("📊 Report on \"");
    reveal_strlit("Report on \"");
    reveal_strlit("📊 ");
    reveal_strlit("💬 You rated the report on \"");
    reveal_strlit("You rated the report on \"");
    reveal_strlit("💬 ");
    let idle = "📭 No active research. Send me a topic to get started!"@;
    assert(idle.subrange(2, 21) =~= "No active research."@);
    assert(text::occurs_at(idle, "No active research."@, 2));
    assert("🔍 Currently researching: \""@ =~= "🔍 "@ + "Currently researching: \""@);
    assert("📊 Report on \""@ =~= "📊 "@ + "Report on \""@);
    assert("💬 You rated the report on \""@ =~= "💬 "@ + "You rated the report on \""@);
    match state::session_of(s.sessions, chat_id) {
        ConversationView::AwaitingComment { topic, rating } => {
            let told = chat::status_message(state::session_of(s.sessions, chat_id));
            let piece = "You rated the report on \""@ + topic + "\" as "@ + rating.name();
            assert(told =~= "💬 "@ + piece + ". Type a comment or tap Skip."@);
        },
        _ => {},
    }
}

proof fn lemma_commands_differ()
    ensures
        "/help"@ != "/start"@ && "/help"@ != "hi"@ && "/help"@ != "hello"@ && "/help"@ != "menu"@,
        "/terms"@ != "/start"@ && "/terms"@ != "hi"@ && "/terms"@ != "hello"@ && "/terms"@
            != "menu"@ && "/terms"@ != "/help"@,
        "/status"@ != "/start"@ && "/status"@ != "hi"@ && "/status"@ != "hello"@ && "/status"@
            != "menu"@ && "/status"@ != "/help"@ && "/status"@ != "/terms"@,
{
    reveal_strlit("/start");
    reveal_strlit("hi");
    reveal_strlit("hello");
    reveal_strlit("menu");
    reveal_strlit("/help");
    reveal_strlit("/terms");
    reveal_strlit("/status");
    assert("/help"@[1] == 'h' && "/start"@[1] == 's' && "/terms"@[1] == 't' && "/status"@.len() == 7);
    assert("hi"@[0] == 'h' && "hello"@[0] == 'h' && "menu"@[0] == 'm' && "/help"@[0] == '/'
        && "/terms"@[0] == '/' && "/status"@[0] == '/');
    assert("/start"@.len() == 6);
    assert("/status"@[1] == 's');
}

/// A comment that is awaited is taken: the feedback is on the topic and with the rating of the
/// conversation, and holds the message; it comes first among what is kept, and the chat is idle.
pub proof fn law_comments_are_taken(
    s: StateView,
    chat_id: i64,
    t: Seq<char>,
    username: Option<Seq<char>>,
    timestamp: Timestamp,
    now: u64,
    topic: Seq<char>,
    rating: FeedbackRating,
)
    requires
        state::session_of(s.sessions, chat_id) == (ConversationView::AwaitingComment {
            topic,
            rating,
        }),
        !is_command(t),
    ensures
        ({
            let (after, outcome) = chat::message_outcome(s, chat_id, t, username, timestamp, now);
            &&& outcome matches OutcomeView::Feedback { feedback: f, .. }
            &&& f.chat_id == chat_id
            &&& f.username == username
            &&& f.topic == topic
            &&& f.rating == rating
            &&& f.comment == Some(trim::trim(t))
            &&& f.timestamp == timestamp
            &&& after.feedback.len() > 0 && after.feedback[0] == f
            &&& s.feedback.len() < 100 ==> after.feedback == seq![f] + s.feedback
            &&& state::session_of(after.sessions, chat_id) is Idle
            &&& after.rate_limits == s.rate_limits
        }),
{
}

/// A pressed rating counts only while one is awaited, and going without a comment only while one is
/// awaited; anything else changes nothing.
pub proof fn law_buttons_count_in_their_time(
    s: StateView,
    callback: TelegramCallbackQuery,
    timestamp: Timestamp,
)
    ensures
        ({
            let (after, outcome) = chat::callback_outcome(s, callback, timestamp);
            let session = state::session_of(s.sessions, chat::callback_chat(callback));
            let skips = text::opt_view(callback.data) == Some("skip_comment"@);
            &&& skips && session !is AwaitingComment ==> after == s && outcome is Nothing
            &&& !skips && session !is AwaitingFeedback ==> after == s && outcome is Nothing
            &&& !skips && (forall|r: FeedbackRating|
                text::opt_view(callback.data) != Some(#[trigger] r.data())) ==> after == s
                && outcome is Nothing
        }),
{
    reveal_strlit("");
    reveal_strlit("skip_comment");
    reveal_strlit("rate_excellent");
    reveal_strlit("rate_good");
    reveal_strlit("rate_needs_work");
    reveal_strlit("rate_poor");
    assert(""@.len() == 0);
    assert("skip_comment"@.len() > 0 && "rate_excellent"@.len() > 0 && "rate_good"@.len() > 0
        && "rate_needs_work"@.len() > 0 && "rate_poor"@.len() > 0);
    if forall|r: FeedbackRating| text::opt_view(callback.data) != Some(#[trigger] r.data()) {
        assert(text::opt_view(callback.data) != Some(FeedbackRating::Excellent.data()));
        assert(text::opt_view(callback.data) != Some(FeedbackRating::Good.data()));
        assert(text::opt_view(callback.data) != Some(FeedbackRating::NeedsWork.data()));
        assert(text::opt_view(callback.data) != Some(FeedbackRating::Poor.data()));
    }
}

/// A rating that is awaited is taken, and a comment is asked for, or given up where it is skipped; the
/// feedback keeps what it is on and who gave it.
pub proof fn law_ratings_are_taken(
    s: StateView,
    callback: TelegramCallbackQuery,
    timestamp: Timestamp,
    topic: Seq<char>,
    rating: FeedbackRating,
)
    ensures
        ({
            let chat_id = chat::callback_chat(callback);
            let (after, outcome) = chat::callback_outcome(s, callback, timestamp);
            let session = state::session_of(s.sessions, chat_id);
            &&& session == (ConversationView::AwaitingFeedback { topic }) && text::opt_view(
                callback.data,
            ) == Some(rating.data()) ==> {
                &&& state::session_of(after.sessions, chat_id) == (
                ConversationView::AwaitingComment { topic, rating })
                &&& outcome matches CallbackView::AskComment { prompt } && text::contains(
                    prompt,
                    rating.name(),
                )
                &&& after.feedback == s.feedback
            }
            &&& session == (ConversationView::AwaitingComment { topic, rating }) && text::opt_view(
                callback.data,
            ) == Some("skip_comment"@) ==> {
                &&& outcome matches CallbackView::Feedback { feedback: f, .. }
                &&& f.chat_id == chat_id
                &&& f.username == text::opt_view(callback.from.username)
                &&& f.topic == topic
                &&& f.rating == rating
                &&& f.comment is None
                &&& f.timestamp == timestamp
                &&& after.feedback.len() > 0 && after.feedback[0] == f
                &&& state::session_of(after.sessions, chat_id) is Idle
            }
        }),
{
    crate::models::law_callback_data_reads_back(rating);
    reveal_strlit("skip_comment");
    reveal_strlit("rate_excellent");
    reveal_strlit("rate_good");
    reveal_strlit("rate_needs_work");
    reveal_strlit("rate_poor");
    assert("skip_comment"@[0] == 's');
    assert(rating.data()[0] == 'r');
}

// What is kept

/// Of the questions of a user the last five are remembered, in order, and of feedback the newest
/// hundred entries.
pub proof fn law_what_is_remembered(
    list: Seq<Seq<char>>,
    query: Seq<char>,
    kept: Seq<FeedbackView>,
    f: FeedbackView,
)
    ensures
        list.len() < 5 ==> state::remembered(list, query) == list.push(query),
        list.len() == 5 ==> state::remembered(list, query) == list.skip(1).push(query),
        kept.len() < 100 ==> state::cached(kept, f) == seq![f] + kept,
        kept.len() >= 100 ==> state::cached(kept, f) == seq![f] + kept.take(99),
{
    if list.len() == 5 {
        assert(list.push(query).skip(1) =~= list.skip(1).push(query));
    }
    if kept.len() >= 100 {
        assert((seq![f] + kept).take(100) =~= seq![f] + kept.take(99));
    }
}

/// A finished task is remembered by its topic and makes room for the next; nothing else changes.
pub proof fn law_finished_tasks_are_remembered(s: StateView, key: i64, topic: Seq<char>, other: i64)
    ensures
        ({
            let after = bridge::after_task(s, key, topic);
            let before = state::history_of(s.chat_history, key);
            &&& before.len() < 5 ==> state::history_of(after.chat_history, key) == before.push(topic)
            &&& state::history_of(after.chat_history, key).len() > 0
            &&& !after.active_tasks.contains(key)
            &&& other != key ==> (after.active_tasks.contains(other) <==> s.active_tasks.contains(
                other,
            )) && state::history_of(after.chat_history, other) == state::history_of(
                s.chat_history,
                other,
            )
            &&& after.sessions == s.sessions && after.rate_limits == s.rate_limits && after.feedback
                == s.feedback && after.config == s.config
        }),
{
}

/// A request counts for one hour: older ones are dropped, newer ones stay in order.
pub proof fn law_requests_count_for_an_hour(times: Seq<u64>, now: u64, max: nat)
    ensures
        ({
            let recent = times.filter(|t: u64| now - t < 3_600_000_000_000);
            &&& recent.len() < max ==> state::times_after(times, now, max as int) == recent.push(now)
            &&& recent.len() >= max ==> state::times_after(times, now, max as int) == recent
            &&& state::is_admitted(times, now, max as int) <==> recent.len() < max
        }),
{
    assert(state::recent_test(now) =~= (|t: u64| now - t < 3_600_000_000_000));
}

// Topics

/// A line that names no style is part of the topic, without white space at its ends; a line that
/// names one, or none at all, is not; and lines add up.
pub proof fn law_topic_lines_add_up(ls: Seq<Seq<char>>, line: Seq<char>)
    ensures
        ({
            let before = chat::topic_lines(ls);
            let after = chat::topic_lines(ls.push(line));
            let t = trim::trim(line);
            let low = chars::lowercase(t);
            let names_style = "reference style:"@.is_prefix_of(low)
                || "citation style:"@.is_prefix_of(low) || "style:"@.is_prefix_of(low);
            &&& t.len() == 0 || names_style ==> after.lines == before.lines
            &&& t.len() > 0 && !names_style ==> after.lines == before.lines.push(t) && after.style
                == before.style
            &&& t.len() == 0 ==> after.style == before.style
            &&& "reference style:"@.is_prefix_of(low) && t.len() > 0 ==> after.style
                == ReferenceStyle::asked_for(trim::trim(low.skip("reference style:"@.len() as int)))
            &&& "citation style:"@.is_prefix_of(low) && !"reference style:"@.is_prefix_of(low)
                && t.len() > 0 ==> after.style == ReferenceStyle::asked_for(
                trim::trim(low.skip("citation style:"@.len() as int)),
            )
            &&& "style:"@.is_prefix_of(low) && t.len() > 0 ==> after.style
                == ReferenceStyle::asked_for(trim::trim(low.skip("style:"@.len() as int)))
        }),
        chat::topic_lines(Seq::empty()).lines.len() == 0,
        chat::topic_lines(Seq::empty()).style is None,
{
    assert(ls.push(line).drop_last() =~= ls);
    let low = chars::lowercase(trim::trim(line));
    reveal_strlit("style:");
    reveal_strlit("reference style:");
    reveal_strlit("citation style:");
    if "style:"@.is_prefix_of(low) {
        assert(low.subrange(0, 6)[0] == 's');
        if "reference style:"@.is_prefix_of(low) {
            assert(low.subrange(0, 16)[0] == 'r');
        }
        if "citation style:"@.is_prefix_of(low) {
            assert(low.subrange(0, 15)[0] == 'c');
        }
    }
}

/// The topic of a text holds each of its topic lines in order; a text that is one line and names no
/// style is its own topic, in the usual style.
pub proof fn law_topics_hold_their_lines(t: Seq<char>)
    ensures
        chat::topic_lines(pieces::lines(t)).lines.len() > 0 ==> finding::stand_in_order(
            chat::topic_of(t),
            chat::topic_lines(pieces::lines(t)).lines,
        ),
        chat::topic_lines(pieces::lines(t)).lines.len() == 0 ==> chat::topic_of(t) == trim::trim(t),
        chat::topic_lines(pieces::lines(t)).style matches Some(style) ==> chat::style_of(t) == style,
        chat::topic_lines(pieces::lines(t)).style is None ==> chat::style_of(t) is Apa,
        t.len() > 0 && trim::is_trimmed(t) && !t.contains('\n') && chat::style_value(
            chars::lowercase(t),
        ) is None ==> chat::topic_of(t) == t && chat::style_of(t) is Apa,
{
    finding::lemma_order_of_join(chat::topic_lines(pieces::lines(t)).lines, " "@);
    if t.len() > 0 && trim::is_trimmed(t) && !t.contains('\n') && chat::style_value(
        chars::lowercase(t),
    ) is None {
        text::lemma_before(t, '\n');
        let k = text::before(t, '\n');
        if k < t.len() {
            assert(t.contains(t[k]));
        }
        let ls = pieces::lines(t);
        assert(ls =~= seq![t]);
        assert(ls.drop_last() =~= seq![]);
        trim::lemma_trimmed_is_fixed(t);
        assert(chat::topic_lines(ls.drop_last()).lines =~= seq![]);
        assert(chat::topic_lines(ls).lines =~= seq![t]);
    }
}

// Reports

/// What a chat is shown while research is in progress holds the topic, the tier, the style and all
/// that happened, in order.
#[verifier::rlimit(40)]
pub proof fn law_progress_is_shown(
    topic: Seq<char>,
    badge: Seq<char>,
    style: ReferenceStyle,
    updates: Seq<Seq<char>>,
)
    ensures
        ({
            let t = chat::progress_message(topic, badge, style, updates);
            &&& text::contains(t, topic)
            &&& text::contains(t, badge)
            &&& text::contains(t, "\nReference style: "@ + style.name())
            &&& finding::stand_in_order(t, updates)
        }),
{
    let lines = chat::update_lines(updates);
    let body = pieces::join(lines, "\n"@);
    assert forall|i: int| 0 <= i < lines.len() implies text::contains(
        #[trigger] lines[i],
        updates[i],
    ) by {
        finding::lemma_holds_back("— "@, updates[i], updates[i]);
    }
    finding::lemma_order_of_join(lines, "\n"@);
    finding::lemma_order_inside(body, lines, updates);
    let rest = body + "\n\n⏳ *Working...*"@;
    finding::lemma_order_grows(body, updates, "\n\n⏳ *Working...*"@);
    let above = "🔍 *Professor is researching:* \""@ + topic + "\"\n\n"@ + badge
        + "\nReference style: "@ + style.name() + "\n\n"@;
    finding::lemma_order_shifts(above, rest, updates);
}

/// A finished report is delivered with its data, its preview, every source in order with title and
/// address, its PDF and where its files are.
#[verifier::rlimit(40)]
pub proof fn law_deliveries_tell_of_the_report(r: ReportView)
    ensures
        ({
            let opening = chat::opening_messages(r);
            let materials = chat::materials_text(r.sources);
            let closing = chat::closing_message(r);
            &&& opening.len() > 0
            &&& text::contains(opening[0], "\n\nTitle: "@ + r.title)
            &&& text::contains(opening[0], "\nDeliverable: "@ + r.deliverable)
            &&& text::contains(opening[0], "\nReference style: "@ + r.reference_style)
            &&& text::contains(
                opening[0],
                "\nWord count: "@ + numbers::decimal(r.total_word_count as nat),
            )
            &&& text::contains(
                opening[0],
                "\nEstimated pages: "@ + numbers::decimal(r.estimated_page_count as nat),
            )
            &&& text::contains(
                opening[0],
                "\nCitation target: "@ + numbers::decimal(r.citations_target as nat),
            )
            &&& r.abstract_preview matches Some(p) ==> opening.len() == 2 && text::contains(
                opening[1],
                p,
            )
            &&& finding::stand_in_order(
                materials,
                Seq::new(
                    r.sources.len(),
                    |i: int| ". "@ + r.sources[i].title + "\n"@ + r.sources[i].url,
                ),
            )
            &&& text::contains(chat::report_caption(r), r.title)
            &&& text::contains(chat::report_caption(r), r.deliverable)
            &&& text::contains(chat::report_caption(r), r.reference_style)
            &&& r.artifacts matches Some(a) ==> {
                &&& a.markdown_path matches Some(p) ==> text::contains(
                    closing,
                    "Markdown saved to: "@ + p,
                )
                &&& a.json_path matches Some(p) ==> text::contains(
                    closing,
                    "JSON package saved to: "@ + p,
                )
                &&& a.pdf_path matches Some(p) ==> text::contains(closing, "PDF saved to: "@ + p)
                    && chat::pdf_of(r) == Some(p)
            }
        }),
{
    let list = r.sources;
    let entries = chat::material_entries(list);
    let body = pieces::join(entries, ""@);
    let inner = Seq::new(list.len(), |i: int| ". "@ + list[i].title + "\n"@ + list[i].url);
    assert forall|i: int| 0 <= i < entries.len() implies text::contains(
        #[trigger] entries[i],
        inner[i],
    ) by {
        let n = crate::rendering::ordinal(i);
        assert(entries[i] =~= n + (". "@ + list[i].title + "\n"@ + list[i].url) + "\n\n"@);
    }
    finding::lemma_order_of_join(entries, ""@);
    finding::lemma_order_inside(body, entries, inner);
    finding::lemma_order_shifts("📚 Materials Evaluated\n\n"@, body, inner);
    let intro = chat::report_intro(r);
    reveal_strlit("Research complete.\n\nTitle: ");
    reveal_strlit("Research complete.");
    reveal_strlit("\n\nTitle: ");
    assert("Research complete.\n\nTitle: "@ =~= "Research complete."@ + "\n\nTitle: "@);
    reveal_strlit("\nMarkdown saved to: ");
    reveal_strlit("\nJSON package saved to: ");
    reveal_strlit("\nPDF saved to: ");
    reveal_strlit("Markdown saved to: ");
    reveal_strlit("JSON package saved to: ");
    reveal_strlit("PDF saved to: ");
    reveal_strlit("\n");
    assert("\nMarkdown saved to: "@ =~= "\n"@ + "Markdown saved to: "@);
    assert("\nJSON package saved to: "@ =~= "\n"@ + "JSON package saved to: "@);
    assert("\nPDF saved to: "@ =~= "\n"@ + "PDF saved to: "@);
}

// WhatsApp

/// A question of a sender who is let in starts a task with that question, where it is neither a
/// greeting nor asks to forget, the requests are not used up and no task is running.
pub proof fn law_questions_start_tasks(
    s: StateView,
    sender: Seq<char>,
    body: Seq<char>,
    now: u64,
)
    requires
        bridge::is_allowed(s.config.allowed_users, bridge::key_of(sender)),
        excerpt::sanitized(body).len() > 0,
        !bridge::is_greeting(chars::lowercase(excerpt::sanitized(body))),
        !bridge::asks_to_forget(chars::lowercase(excerpt::sanitized(body))),
    ensures
        ({
            let key = bridge::key_of(sender);
            let (after, outcome) = bridge::incoming_outcome(
                s,
                s.config.bridge_secret,
                sender,
                body,
                now,
            );
            let used = requests_within_the_hour(s, key, now) >= s.config.max_requests_per_hour;
            &&& !used && !s.active_tasks.contains(key) ==> outcome == (BridgeView::Start {
                sender_key: key,
                text: excerpt::sanitized(body),
            }) && after.active_tasks.contains(key)
            &&& used ==> outcome == (BridgeView::Reply { reply: messages::RATE_LIMIT_MESSAGE@ })
                && after.active_tasks == s.active_tasks
            &&& !used && s.active_tasks.contains(key) ==> outcome is Reply && after.active_tasks
                == s.active_tasks
            &&& !used ==> state::times_of(after.rate_limits, key).len()
                == requests_within_the_hour(s, key, now) + 1
            &&& after.chat_history == s.chat_history
        }),
{
    lemma_recent(s, bridge::key_of(sender), now);
    let test = |t: u64| now - t < 3_600_000_000_000;
    assert(state::recent_test(now) =~= test);
}

/// An empty message or a greeting of a sender who is let in is answered with help, and changes
/// nothing.
pub proof fn law_greetings_are_answered_with_help(
    s: StateView,
    sender: Seq<char>,
    body: Seq<char>,
    now: u64,
)
    requires
        bridge::is_allowed(s.config.allowed_users, bridge::key_of(sender)),
        excerpt::sanitized(body).len() == 0 || chars::lowercase(excerpt::sanitized(body)) == "hi"@
            || chars::lowercase(excerpt::sanitized(body)) == "hello"@ || chars::lowercase(
            excerpt::sanitized(body),
        ) == "help"@ || chars::lowercase(excerpt::sanitized(body)) == "/start"@ || chars::lowercase(
            excerpt::sanitized(body),
        ) == "menu"@,
    ensures
        bridge::incoming_outcome(s, s.config.bridge_secret, sender, body, now) == (
            s,
            BridgeView::Reply { reply: messages::WHATSAPP_HELP_MESSAGE@ },
        ),
{
}

/// What users are told of an error names their topic and its kind: overload where it speaks of a
/// rate limit or a quota, slowness where of a timeout, an empty answer where of one. Nothing else of
/// the error is told: errors of one kind are told alike.
pub proof fn law_errors_are_told_by_kind(error: Seq<char>, other: Seq<char>, topic: Seq<char>)
    ensures
        ({
            let low = chars::lowercase(error);
            let told = bridge::user_message(bridge::error_kind(error), topic);
            let busy = text::contains(low, "429"@) || text::contains(low, "rate limit"@)
                || text::contains(low, "quota"@);
            let slow = text::contains(low, "timeout"@) || text::contains(low, "timed out"@);
            let empty = text::contains(low, "empty"@) || text::contains(low, "no text content"@);
            &&& text::contains(told, topic)
            &&& busy ==> "⏳ I'm temporarily overloaded"@.is_prefix_of(told)
            &&& !busy && slow ==> "⏱️ The research for \""@.is_prefix_of(told)
            &&& !busy && !slow && empty ==> "🤔 I couldn't generate"@.is_prefix_of(told)
            &&& !busy && !slow && !empty ==> "❌ I ran into an issue"@.is_prefix_of(told)
            &&& bridge::error_kind(error) == bridge::error_kind(other) ==> told
                == bridge::user_message(bridge::error_kind(other), topic)
        }),
{
    reveal_strlit("⏳ I'm temporarily overloaded with requests right now. Please try \"");
    reveal_strlit("⏳ I'm temporarily overloaded");
    reveal_strlit("⏱️ The research for \"");
    reveal_strlit("🤔 I couldn't generate a good response for \"");
    reveal_strlit("🤔 I couldn't generate");
    reveal_strlit("❌ I ran into an issue while researching \"");
    reveal_strlit("❌ I ran into an issue");
    let told = bridge::user_message(bridge::error_kind(error), topic);
    let a = "⏳ I'm temporarily overloaded"@;
    let b = "⏱️ The research for \""@;
    let c = "🤔 I couldn't generate"@;
    let d = "❌ I ran into an issue"@;
    match bridge::error_kind(error) {
        bridge::ErrorKind::Overloaded => {
            assert(told.subrange(0, a.len() as int) =~= a);
        },
        bridge::ErrorKind::TooSlow => {
            assert(told.subrange(0, b.len() as int) =~= b);
        },
        bridge::ErrorKind::NoAnswer => {
            assert(told.subrange(0, c.len() as int) =~= c);
        },
        bridge::ErrorKind::Other => {
            assert(told.subrange(0, d.len() as int) =~= d);
        },
    }
}

/// A rewritten question replaces the question where it says something and is no longer than 500
/// bytes; else the question stays.
pub proof fn law_rewritten_questions(query: Seq<char>, rewritten: Seq<char>)
    ensures
        prompts::resolved_query(query, None) == query,
        trim::trim(rewritten).len() == 0 ==> prompts::resolved_query(query, Some(rewritten))
            == query,
        crate::bytes::byte_len(trim::trim(rewritten)) > 500 ==> prompts::resolved_query(
            query,
            Some(rewritten),
        ) == query,
        trim::trim(rewritten).len() > 0 && crate::bytes::byte_len(trim::trim(rewritten)) <= 500
            ==> prompts::resolved_query(query, Some(rewritten)) == trim::trim(rewritten),
{
}

// Feedback

/// A prompt that is informed by feedback begins with the prompt itself and tells the counts, the
/// first ten comments in order with their ratings and, where more than a third of the ratings are
/// bad, a warning; without feedback it is the prompt.
#[verifier::rlimit(40)]
pub proof fn law_feedback_is_told(base: Seq<char>, list: Seq<FeedbackView>)
    ensures
        ({
            let t = feedback::informed_prompt(base, list);
            let n = |r: FeedbackRating| list.filter(|f: FeedbackView| f.rating == r).len();
            let lines = feedback::comment_lines(list);
            let shown = if lines.len() > 10 {
                lines.take(10)
            } else {
                lines
            };
            &&& list.len() == 0 ==> t == base
            &&& list.len() > 0 ==> {
                &&& base.is_prefix_of(t)
                &&& text::contains(
                    t,
                    "Based on "@ + numbers::decimal(list.len()) + " user evaluations: "@
                        + numbers::decimal(n(FeedbackRating::Excellent)) + " excellent, "@
                        + numbers::decimal(n(FeedbackRating::Good)) + " good, "@
                        + numbers::decimal(n(FeedbackRating::NeedsWork)) + " needs work, "@
                        + numbers::decimal(n(FeedbackRating::Poor)) + " poor.\n"@,
                )
                &&& finding::stand_in_order(t, shown)
                &&& (n(FeedbackRating::NeedsWork) + n(FeedbackRating::Poor)) as int > list.len()
                    as int / 3 ==> text::contains(
                    t,
                    "\nIMPORTANT: A significant portion of users found reports lacking. Focus on depth, accuracy, proper citations, and avoiding generic filler.\n"@,
                )
            }
        }),
{
    if list.len() > 0 {
        let t = feedback::informed_prompt(base, list);
        let lines = feedback::comment_lines(list);
        let shown = if lines.len() > 10 {
            lines.take(10)
        } else {
            lines
        };
        let e = FeedbackRating::Excellent;
        let g = FeedbackRating::Good;
        let w = FeedbackRating::NeedsWork;
        let p = FeedbackRating::Poor;
        assert(feedback::rating_test(e) =~= (|f: FeedbackView| f.rating == e));
        assert(feedback::rating_test(g) =~= (|f: FeedbackView| f.rating == g));
        assert(feedback::rating_test(w) =~= (|f: FeedbackView| f.rating == w));
        assert(feedback::rating_test(p) =~= (|f: FeedbackView| f.rating == p));
        let sum = "Based on "@ + numbers::decimal(list.len()) + " user evaluations: "@
            + numbers::decimal(feedback::rated(list, e) as nat) + " excellent, "@
            + numbers::decimal(feedback::rated(list, g) as nat) + " good, "@ + numbers::decimal(
            feedback::rated(list, w) as nat,
        ) + " needs work, "@ + numbers::decimal(feedback::rated(list, p) as nat) + " poor.\n"@;
        let head = base + "\n\n--- USER FEEDBACK INTELLIGENCE ---\n"@;
        let counts = head + sum;
        lemma_one_before_the_others(
            head,
            "Based on "@,
            numbers::decimal(list.len()),
            " user evaluations: "@,
            numbers::decimal(feedback::rated(list, e) as nat),
            " excellent, "@,
            numbers::decimal(feedback::rated(list, g) as nat),
            " good, "@,
            numbers::decimal(feedback::rated(list, w) as nat),
            " needs work, "@,
            numbers::decimal(feedback::rated(list, p) as nat),
            " poor.\n"@,
        );
        let bad = feedback::rated(list, w) + feedback::rated(list, p) > list.len() as int / 3;
        assert(t == told(counts, shown, bad));
        lemma_told(counts, shown, bad);
        finding::lemma_holds_back(head, sum, sum);
        finding::lemma_holds_through(t, counts, sum);
        lemma_prefix(base, "\n\n--- USER FEEDBACK INTELLIGENCE ---\n"@, sum, t);
    }
}

proof fn lemma_prefix(a: Seq<char>, b: Seq<char>, c: Seq<char>, t: Seq<char>)
    requires
        (a + b + c).is_prefix_of(t),
    ensures
        a.is_prefix_of(t),
{
    let n = a.len() as int;
    let all = (a + b + c).len() as int;
    assert forall|k: int| 0 <= k < n implies #[trigger] t.subrange(0, n)[k] == a[k] by {
        assert(t.subrange(0, all)[k] == (a + b + c)[k]);
    }
    assert(t.subrange(0, n) =~= a);
}

proof fn lemma_one_before_the_others(
    a: Seq<char>,
    b: Seq<char>,
    c: Seq<char>,
    d: Seq<char>,
    e: Seq<char>,
    f: Seq<char>,
    g: Seq<char>,
    h: Seq<char>,
    i: Seq<char>,
    j: Seq<char>,
    k: Seq<char>,
    l: Seq<char>,
)
    ensures
        a + b + c + d + e + f + g + h + i + j + k + l == a + (b + c + d + e + f + g + h + i + j + k
            + l),
{
    assert(a + b + c =~= a + (b + c));
    assert(a + b + c + d =~= a + (b + c + d));
    assert(a + b + c + d + e =~= a + (b + c + d + e));
    assert(a + b + c + d + e + f =~= a + (b + c + d + e + f));
    assert(a + b + c + d + e + f + g =~= a + (b + c + d + e + f + g));
    assert(a + b + c + d + e + f + g + h =~= a + (b + c + d + e + f + g + h));
    assert(a + b + c + d + e + f + g + h + i =~= a + (b + c + d + e + f + g + h + i));
    assert(a + b + c + d + e + f + g + h + i + j =~= a + (b + c + d + e + f + g + h + i + j));
    assert(a + b + c + d + e + f + g + h + i + j + k =~= a + (b + c + d + e + f + g + h + i + j
        + k));
}

/// Comments and a warning behind what is told of the ratings.
spec fn told(counts: Seq<char>, shown: Seq<Seq<char>>, bad: bool) -> Seq<char> {
    let with_comments = if shown.len() > 0 {
        counts + "\nRecent user comments on generated reports:\n"@ + pieces::join(
            feedback::ended(shown),
            ""@,
        )
    } else {
        counts
    };
    let warned = if bad {
        with_comments
            + "\nIMPORTANT: A significant portion of users found reports lacking. Focus on depth, accuracy, proper citations, and avoiding generic filler.\n"@
    } else {
        with_comments
    };
    warned + "Apply these insights to improve the quality of all future reports.\n"@
        + "--- END FEEDBACK INTELLIGENCE ---\n"@
}

proof fn lemma_told(counts: Seq<char>, shown: Seq<Seq<char>>, bad: bool)
    ensures
        counts.is_prefix_of(told(counts, shown, bad)),
        text::contains(told(counts, shown, bad), counts),
        finding::stand_in_order(told(counts, shown, bad), shown),
        bad ==> text::contains(
            told(counts, shown, bad),
            "\nIMPORTANT: A significant portion of users found reports lacking. Focus on depth, accuracy, proper citations, and avoiding generic filler.\n"@,
        ),
{
    let head = "\nRecent user comments on generated reports:\n"@;
    let ended = feedback::ended(shown);
    let with_comments = if shown.len() > 0 {
        counts + head + pieces::join(ended, ""@)
    } else {
        counts
    };
    let alarm =
        "\nIMPORTANT: A significant portion of users found reports lacking. Focus on depth, accuracy, proper citations, and avoiding generic filler.\n"@;
    let warned = if bad {
        with_comments + alarm
    } else {
        with_comments
    };
    let end1 = "Apply these insights to improve the quality of all future reports.\n"@;
    let end2 = "--- END FEEDBACK INTELLIGENCE ---\n"@;
    if shown.len() > 0 {
        assert forall|i: int| 0 <= i < ended.len() implies text::contains(
            #[trigger] ended[i],
            shown[i],
        ) by {
            finding::lemma_holds_front(shown[i], "\n"@, shown[i]);
        }
        finding::lemma_order_of_join(ended, ""@);
        finding::lemma_order_inside(pieces::join(ended, ""@), ended, shown);
        finding::lemma_order_shifts(counts + head, pieces::join(ended, ""@), shown);
    } else {
        finding::lemma_none_in_order(with_comments);
        assert(shown =~= Seq::empty());
    }
    if bad {
        finding::lemma_order_grows(with_comments, shown, alarm);
    }
    finding::lemma_order_grows(warned, shown, end1);
    finding::lemma_order_grows(warned + end1, shown, end2);
    let t = told(counts, shown, bad);
    assert(t.subrange(0, counts.len() as int) =~= counts);
    assert(text::contains(with_comments, counts));
    assert(text::contains(warned, counts));
}

/// Each comment is told with its rating, in the order of the entries; an entry without one is not.
pub proof fn law_comments_are_told(list: Seq<FeedbackView>, f: FeedbackView)
    ensures
        f.comment is None ==> feedback::comment_lines(list.push(f)) == feedback::comment_lines(
            list,
        ),
        f.comment matches Some(c) ==> feedback::comment_lines(list.push(f))
            == feedback::comment_lines(list).push("- ["@ + f.rating.name() + "] "@ + c),
        feedback::comment_lines(Seq::<FeedbackView>::empty()).len() == 0,
{
    assert(list.push(f).drop_last() =~= list);
}

} // verus!
