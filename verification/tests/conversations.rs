use research_bot::bridge::{
    brief_request, deliver_document, extract_full_report_topic, finish_task, plan_task,
    preparing_message, reformulate_request, researching_message, run_whatsapp_research_brief,
    sanitize_error_for_user, sender_key_with, silent_response, whatsapp_bridge_audio,
    whatsapp_bridge_incoming, whatsapp_sender_key, BridgeOutcome, BridgeTask, ReportDelivery,
};
use research_bot::chat::{
    callback_chat_id, comment_buttons, deliver_report, dispatch_telegram_update,
    extract_topic_and_reference_style, fail_research, feedback_buttons, finish_research,
    handle_callback_query, handle_user_message, progress_text, CallbackOutcome, Dispatch,
    MessageOutcome,
};
use research_bot::config::AppConfig;
use research_bot::feedback::{
    build_feedback_aware_prompt, count_feedback, feedback_file_name, is_admin,
    all_feedback_files, recent_feedback_files, stamped_file_name,
};
use research_bot::messages::{
    GREETING_MESSAGE, HELP_MESSAGE, RATE_LIMIT_MESSAGE, RESEARCH_IN_PROGRESS_MESSAGE,
    TERMS_MESSAGE, WHATSAPP_HELP_MESSAGE,
};
use research_bot::models::{
    default_tier, ConversationState, FeedbackRating, ReferenceStyle, ResearchArtifacts,
    ResearchPlan, ResearchQualityReport, ResearchReport, ResearchSource, ResearchTier,
    TelegramCallbackMessage, TelegramCallbackQuery, TelegramChat, TelegramMessage, TelegramUpdate,
    TelegramUser, Timestamp, UserFeedback, WhatsAppBridgeAudio, WhatsAppBridgeMessage,
};
use research_bot::requests::{artifact_path, note_artifacts};
use research_bot::state::{
    begin_task, cache_feedback, check_rate_limit, clear_chat_history, end_task, get_chat_history,
    get_feedback_snapshot, get_session, push_chat_history, set_session, AppState, HOUR_NANOS,
};
use std::hash::{Hash, Hasher};

const NOON: Timestamp = Timestamp { secs: 1_767_268_800, nanos: 0 };

fn config(vars: &[(&str, &str)]) -> AppConfig {
    let list: Vec<(String, String)> =
        vars.iter().map(|(k, v)| (k.to_string(), v.to_string())).collect();
    AppConfig::from_env(&list)
}

fn state() -> AppState {
    AppState::new(config(&[]), Vec::new())
}

fn say(state: &mut AppState, chat: i64, text: &str, now: u64) -> MessageOutcome {
    handle_user_message(state, chat, text, &Some("ada".to_string()), NOON, now)
}

fn reply_of(outcome: MessageOutcome) -> (String, bool) {
    match outcome {
        MessageOutcome::Reply { text, markdown } => (text, markdown),
        other => panic!("{other:?}"),
    }
}

fn press(chat: i64, data: &str) -> TelegramCallbackQuery {
    TelegramCallbackQuery {
        id: "q".to_string(),
        from: TelegramUser {
            id: 1,
            first_name: "Ada".to_string(),
            username: Some("ada".to_string()),
        },
        message: Some(TelegramCallbackMessage {
            chat: TelegramChat { id: chat },
            _message_id: 1,
        }),
        data: Some(data.to_string()),
    }
}

fn feedback(rating: FeedbackRating, comment: Option<&str>) -> UserFeedback {
    UserFeedback {
        chat_id: -42,
        username: None,
        topic: "T".to_string(),
        rating,
        comment: comment.map(str::to_string),
        timestamp: NOON,
    }
}

// Configuration

#[test]
fn defaults_are_used_where_nothing_is_set() {
    let c = config(&[]);
    assert_eq!(c.ai_model, "gemma-4-31b-it");
    assert_eq!(c.port, 3000);
    assert_eq!(c.google_api_key, "");
    assert_eq!(c.webhook_url, None);
    assert_eq!(c.feedback_dir, "./feedback");
    assert_eq!(c.admin_api_key, "professor-ai-admin-2026");
    assert!(c.testing_mode);
    assert_eq!(c.max_requests_per_hour, 3);
    assert_eq!(c.bridge_secret, "local_dev_secret_123");
    assert_eq!(c.allowed_users, None);
}

#[test]
fn variables_are_read() {
    let c = config(&[
        ("PORT", "+8080"),
        ("WEBHOOK_URL", ""),
        ("TESTING_MODE", "0"),
        ("MAX_REQUESTS_PER_HOUR", "-1"),
        ("ALLOWED_USERS", " 5, x,-7,,99999999999999999999"),
        ("SUPABASE_URL", "db"),
        ("SUPABASE_KEY", "k"),
    ]);
    assert_eq!(c.port, 8080);
    assert_eq!(c.webhook_url, None);
    assert!(!c.testing_mode);
    assert_eq!(c.max_requests_per_hour, 3);
    assert_eq!(c.allowed_users, Some(vec![5, -7]));
    assert_eq!((c._supabase_url.as_str(), c._supabase_key.as_str()), ("db", "k"));
    assert_eq!(config(&[("PORT", "65536")]).port, 3000);
    assert!(!config(&[("TESTING_MODE", "false")]).testing_mode);
    assert!(config(&[("TESTING_MODE", "no")]).testing_mode);
    assert_eq!(config(&[("ALLOWED_USERS", "")]).allowed_users, None);
    assert_eq!(
        config(&[("WEBHOOK_URL", "https://x")]).webhook_url.as_deref(),
        Some("https://x")
    );
}

// Tiers, styles and ratings

#[test]
fn tiers_build_on_each_other() {
    assert_eq!(ResearchTier::from_amount_kobo(0), ResearchTier::Preview);
    assert_eq!(ResearchTier::from_amount_kobo(200_000), ResearchTier::Starter);
    assert_eq!(ResearchTier::from_amount_kobo(200_001), ResearchTier::Standard);
    assert_eq!(ResearchTier::from_amount_kobo(700_001), ResearchTier::Complete);
    assert_eq!(ResearchTier::Standard.upgrade_cost_from(&ResearchTier::Starter), 350_000);
    assert_eq!(ResearchTier::Starter.upgrade_cost_from(&ResearchTier::Standard), 0);
    assert_eq!(ResearchTier::Complete.price_naira(), 10_000);
    let mut tier = ResearchTier::Preview;
    let mut count = 1;
    while let Some(next) = tier.next_tier() {
        assert!(next.unlocked_sections().starts_with(&tier.unlocked_sections()));
        assert!(next.minimum_word_count() > tier.minimum_word_count());
        assert_eq!(ResearchTier::from_amount_kobo(next.price_kobo()), next);
        tier = next;
        count += 1;
    }
    assert_eq!(count, ResearchTier::all().len());
    assert_eq!(tier.unlocked_sections().len(), 8);
    assert_eq!(tier.emoji(), "📚");
    assert_eq!(ResearchTier::from_request("STARTER"), ResearchTier::Starter);
    assert_eq!(ResearchTier::from_request(&default_tier()), ResearchTier::Complete);
    assert_eq!(ResearchTier::from_request("other"), ResearchTier::Complete);
}

#[test]
fn styles_are_read_from_users() {
    for style in [
        ReferenceStyle::Apa,
        ReferenceStyle::Mla,
        ReferenceStyle::Chicago,
        ReferenceStyle::Harvard,
    ] {
        assert_eq!(ReferenceStyle::from_user_input(style.label()), Some(style));
    }
    assert_eq!(ReferenceStyle::from_user_input("  MLA9 "), Some(ReferenceStyle::Mla));
    assert_eq!(ReferenceStyle::from_user_input("ieee"), None);
    assert_eq!(ReferenceStyle::default(), ReferenceStyle::Apa);
    assert_eq!(ReferenceStyle::Chicago.bibliography_heading(), "Bibliography");
}

#[test]
fn ratings_are_read_from_buttons() {
    for row in feedback_buttons() {
        for (label, data) in row {
            let rating = FeedbackRating::from_callback_data(&data).unwrap();
            assert_eq!(rating.label(), label);
            assert_eq!(rating.callback_data(), data);
        }
    }
    assert_eq!(FeedbackRating::from_callback_data("rate_other"), None);
    assert_eq!(
        comment_buttons(),
        vec![vec![("⏭ Skip Comment".to_string(), "skip_comment".to_string())]]
    );
}

// State

#[test]
fn sessions_are_kept_for_each_chat() {
    let mut s = state();
    set_session(&mut s, 1, ConversationState::Researching { topic: "T".to_string() });
    assert!(matches!(get_session(&s, 1), ConversationState::Researching { .. }));
    assert!(matches!(get_session(&s, 2), ConversationState::Idle));
}

#[test]
fn five_queries_are_remembered() {
    let mut s = state();
    for i in 0..7 {
        push_chat_history(&mut s, 1, &format!("q{i}"));
    }
    assert_eq!(get_chat_history(&s, 1), vec!["q2", "q3", "q4", "q5", "q6"]);
    clear_chat_history(&mut s, 1);
    assert!(get_chat_history(&s, 1).is_empty());
}

#[test]
fn a_hundred_feedback_entries_are_kept() {
    let mut s = state();
    for i in 0..105 {
        cache_feedback(&mut s, feedback(FeedbackRating::Good, Some(&i.to_string())));
    }
    let list = get_feedback_snapshot(&s);
    assert_eq!(list.len(), 100);
    assert_eq!(list[0].comment.as_deref(), Some("104"));
    assert_eq!(list[99].comment.as_deref(), Some("5"));
}

#[test]
fn tasks_run_one_at_a_time() {
    let mut s = state();
    assert!(begin_task(&mut s, 1));
    assert!(!begin_task(&mut s, 1));
    assert!(begin_task(&mut s, 2));
    end_task(&mut s, 1);
    assert!(begin_task(&mut s, 1));
}

#[test]
fn requests_are_limited_by_the_hour() {
    let mut s = state();
    for now in [0, 1, 2] {
        assert!(check_rate_limit(&mut s, 1, now));
    }
    assert!(!check_rate_limit(&mut s, 1, 3));
    assert!(check_rate_limit(&mut s, 2, 3));
    assert!(!check_rate_limit(&mut s, 1, HOUR_NANOS - 1));
    assert!(check_rate_limit(&mut s, 1, HOUR_NANOS));
    assert!(!check_rate_limit(&mut s, 1, HOUR_NANOS));
    assert!(check_rate_limit(&mut s, 1, HOUR_NANOS + 1));
}

// Telegram

#[test]
fn updates_are_dispatched() {
    let message = |text: Option<&str>| TelegramMessage {
        _message_id: 1,
        from: Some(TelegramUser { id: 1, first_name: "A".to_string(), username: None }),
        chat: TelegramChat { id: 7 },
        text: text.map(str::to_string),
    };
    let update = |message, callback_query| TelegramUpdate { update_id: 1, message, callback_query };
    match dispatch_telegram_update(update(Some(message(Some("hi"))), None)) {
        Dispatch::Message { chat_id, text, username } => {
            assert_eq!((chat_id, text.as_str(), username), (7, "hi", None));
        }
        other => panic!("{other:?}"),
    }
    assert!(matches!(
        dispatch_telegram_update(update(Some(message(Some("hi"))), Some(press(1, "x")))),
        Dispatch::Callback { .. }
    ));
    assert!(matches!(
        dispatch_telegram_update(update(Some(message(None)), None)),
        Dispatch::Nothing
    ));
    assert!(matches!(dispatch_telegram_update(update(None, None)), Dispatch::Nothing));
}

#[test]
fn styles_are_taken_out_of_topics() {
    let (topic, style) =
        extract_topic_and_reference_style(" Deep sea \n\nReference style: mla\nmining ");
    assert_eq!(topic, "Deep sea mining");
    assert_eq!(style, ReferenceStyle::Mla);
    let (topic, style) = extract_topic_and_reference_style("Élan\nReference style: Chicago");
    assert_eq!((topic.as_str(), style), ("Élan", ReferenceStyle::Chicago));
    let (topic, style) = extract_topic_and_reference_style("Style: unknown");
    assert_eq!(topic, "Style: unknown");
    assert_eq!(style, ReferenceStyle::Apa);
    let (_, style) = extract_topic_and_reference_style("T\nstyle: mla\ncitation style: nothing");
    assert_eq!(style, ReferenceStyle::Apa);
}

#[test]
fn commands_are_answered() {
    let mut s = state();
    assert_eq!(reply_of(say(&mut s, 1, " /START ", 0)), (GREETING_MESSAGE.to_string(), true));
    assert_eq!(reply_of(say(&mut s, 1, "Menu", 0)), (GREETING_MESSAGE.to_string(), true));
    assert_eq!(reply_of(say(&mut s, 1, "/help", 0)), (HELP_MESSAGE.to_string(), true));
    assert_eq!(reply_of(say(&mut s, 1, "/terms", 0)), (TERMS_MESSAGE.to_string(), true));
    assert_eq!(
        reply_of(say(&mut s, 1, "/status", 0)).0,
        "📭 No active research. Send me a topic to get started!"
    );
    assert_eq!(
        reply_of(say(&mut s, 1, "/feedback", 0)),
        ("No report pending feedback. Submit a research topic first!".to_string(), false)
    );
}

#[test]
fn topics_start_research_once() {
    let mut s = state();
    match say(&mut s, 1, "Deep sea mining\nReference style: MLA", 0) {
        MessageOutcome::Research { topic, reference_style, tier, badge, opening } => {
            assert_eq!(topic, "Deep sea mining");
            assert_eq!(reference_style, ReferenceStyle::Mla);
            assert_eq!(tier, ResearchTier::Complete);
            assert_eq!(badge, "🧪 *Beta Testing* — Full report (FREE)");
            assert_eq!(
                opening,
                "🔍 *Professor is researching:* \"Deep sea mining\"\n\n🧪 *Beta Testing* — Full report (FREE)\nReference style: MLA 9th edition\n\n⏳ *Starting research engine...*"
            );
        }
        other => panic!("{other:?}"),
    }
    assert_eq!(
        reply_of(say(&mut s, 1, "Another topic", 0)),
        (RESEARCH_IN_PROGRESS_MESSAGE.to_string(), false)
    );
    assert_eq!(
        reply_of(say(&mut s, 1, "/status", 0)).0,
        "🔍 Currently researching: \"Deep sea mining\"\n\nPlease wait for the report to complete."
    );
    assert!(matches!(say(&mut s, 2, "Another topic", 0), MessageOutcome::Research { .. }));
    assert_eq!(
        fail_research(&mut s, 1, "boom"),
        "I encountered an issue while preparing the report.\nError: boom\n\nPlease try again."
    );
    assert!(matches!(get_session(&s, 1), ConversationState::Idle));
}

#[test]
fn previews_are_offered_outside_of_tests() {
    let mut s = AppState::new(config(&[("TESTING_MODE", "false")]), Vec::new());
    match say(&mut s, 1, "Topic", 0) {
        MessageOutcome::Research { tier, badge, .. } => {
            assert_eq!(tier, ResearchTier::Preview);
            assert_eq!(badge, "Preview (Free)");
        }
        other => panic!("{other:?}"),
    }
}

#[test]
fn empty_topics_count_for_the_limit() {
    let mut s = state();
    for _ in 0..3 {
        assert_eq!(reply_of(say(&mut s, 1, " \u{7} ", 0)).0, "Please send a valid research topic.");
    }
    assert_eq!(reply_of(say(&mut s, 1, "Topic", 1)).0, RATE_LIMIT_MESSAGE);
}

#[test]
fn feedback_follows_a_report() {
    let mut s = state();
    finish_research(&mut s, 1, "T");
    assert_eq!(
        reply_of(say(&mut s, 1, "/status", 0)).0,
        "📊 Report on \"T\" was delivered. Please rate it using the buttons above!"
    );
    assert_eq!(
        reply_of(say(&mut s, 1, "/feedback", 0)).0,
        "Please use the rating buttons above to rate your last report."
    );
    assert!(matches!(
        handle_callback_query(&mut s, &press(1, "skip_comment"), NOON),
        CallbackOutcome::Nothing
    ));
    match handle_callback_query(&mut s, &press(1, "rate_good"), NOON) {
        CallbackOutcome::AskComment { prompt } => assert_eq!(
            prompt,
            "Thank you for rating: 👍 Good\\!\n\n💬 Want to add specific feedback? Just type it below, or tap *Skip* to finish\\."
        ),
        other => panic!("{other:?}"),
    }
    assert_eq!(
        reply_of(say(&mut s, 1, "/status", 0)).0,
        "💬 You rated the report on \"T\" as 👍 Good. Type a comment or tap Skip."
    );
    assert!(matches!(
        handle_callback_query(&mut s, &press(1, "rate_poor"), NOON),
        CallbackOutcome::Nothing
    ));
    match say(&mut s, 1, " well done ", 0) {
        MessageOutcome::Feedback { feedback, reply } => {
            assert_eq!(feedback.topic, "T");
            assert_eq!(feedback.rating, FeedbackRating::Good);
            assert_eq!(feedback.comment.as_deref(), Some("well done"));
            assert_eq!(feedback.username.as_deref(), Some("ada"));
            assert!(reply.starts_with("✅ Thank you for your detailed feedback!"));
        }
        other => panic!("{other:?}"),
    }
    assert!(matches!(get_session(&s, 1), ConversationState::Idle));
    assert_eq!(get_feedback_snapshot(&s).len(), 1);
}

#[test]
fn comments_can_be_skipped() {
    let mut s = state();
    finish_research(&mut s, 1, "T");
    handle_callback_query(&mut s, &press(1, "rate_poor"), NOON);
    match handle_callback_query(&mut s, &press(1, "skip_comment"), NOON) {
        CallbackOutcome::Feedback { feedback, reply } => {
            assert_eq!(feedback.rating, FeedbackRating::Poor);
            assert_eq!(feedback.comment, None);
            assert_eq!(feedback.chat_id, 1);
            assert!(reply.starts_with("✅ Thank you for your feedback!"));
        }
        other => panic!("{other:?}"),
    }
    assert!(matches!(get_session(&s, 1), ConversationState::Idle));
    let lost = TelegramCallbackQuery { message: None, ..press(1, "rate_good") };
    assert_eq!(callback_chat_id(&lost), 0);
    assert!(matches!(handle_callback_query(&mut s, &lost, NOON), CallbackOutcome::Nothing));
}

#[test]
fn progress_is_shown_as_a_whole() {
    let updates = vec!["one".to_string(), "two".to_string()];
    assert_eq!(
        progress_text("T", "B", &ReferenceStyle::Apa, &updates),
        "🔍 *Professor is researching:* \"T\"\n\nB\nReference style: APA 7th edition\n\n— one\n— two\n\n⏳ *Working...*"
    );
}

fn report(sources: usize) -> ResearchReport {
    ResearchReport {
        topic: "T".to_string(),
        tier: "Complete".to_string(),
        deliverable: "full academic paper".to_string(),
        reference_style: "APA 7th edition".to_string(),
        title: "Title".to_string(),
        citations_target: 25,
        total_word_count: 1000,
        estimated_page_count: 2,
        abstract_preview: Some("In short".to_string()),
        plan: ResearchPlan {
            title: "Title".to_string(),
            thesis: String::new(),
            methodology: String::new(),
            research_questions: Vec::new(),
            keywords: Vec::new(),
            writing_guidance: String::new(),
        },
        sections: Vec::new(),
        sources: (0..sources)
            .map(|i| ResearchSource {
                source_type: "web".to_string(),
                title: format!("S{i}"),
                author_or_channel: "a".to_string(),
                year_hint: None,
                url: format!("https://example.org/{i}"),
                summary: String::new(),
                citation_hint: String::new(),
            })
            .collect(),
        references: String::new(),
        markdown: String::new(),
        quality: ResearchQualityReport {
            required_headings_present: true,
            references_present: true,
            bullet_free: true,
            prose_only: true,
            minimum_word_count_met: true,
            citation_target_met: true,
            actual_word_count: 1000,
            minimum_word_count: 1,
            citation_mentions: 25,
            citation_target: 25,
            missing_headings: Vec::new(),
            banned_phrase_hits: Vec::new(),
        },
        artifacts: Some(ResearchArtifacts {
            markdown_path: Some("p/r.md".to_string()),
            json_path: None,
            pdf_path: Some("p/r.pdf".to_string()),
        }),
    }
}

#[test]
fn reports_note_their_files() {
    let mut r = ResearchReport { artifacts: None, ..report(1) };
    note_artifacts(&mut r, "papers", "20260101T120000Z-tides");
    let noted = r.artifacts.as_ref().unwrap();
    assert_eq!(noted.markdown_path.as_deref(), Some("papers/20260101T120000Z-tides.md"));
    assert_eq!(noted.json_path.as_deref(), Some("papers/20260101T120000Z-tides.json"));
    assert_eq!(noted.pdf_path.as_deref(), Some("papers/20260101T120000Z-tides.pdf"));
    assert_eq!((r.title, r.sources.len()), (report(1).title, 1));
    assert_eq!(artifact_path("out/", "a", ".md"), "out/a.md");
    assert_eq!(artifact_path("", "a", ".md"), "a.md");
    let joined = std::path::Path::new("out").join("a.md").display().to_string();
    assert_eq!(artifact_path("out", "a", ".md"), joined);
}

#[test]
fn reports_are_delivered() {
    let d = deliver_report(&report(2));
    assert_eq!(
        d.opening,
        vec![
            "Research complete.\n\nTitle: Title\nDeliverable: full academic paper\nReference style: APA 7th edition\nWord count: 1000\nEstimated pages: 2\nCitation target: 25\n",
            "Abstract preview:\n\nIn short",
        ]
    );
    assert_eq!(
        d.materials.unwrap(),
        vec!["📚 Materials Evaluated\n\n1. S0\nhttps://example.org/0\n\n2. S1\nhttps://example.org/1\n\n"]
    );
    assert_eq!(
        d.upload.unwrap(),
        (
            "p/r.pdf".to_string(),
            "*Title*\nfull academic paper\nAPA 7th edition\nEstimated pages: 2".to_string()
        )
    );
    assert_eq!(
        d.closing,
        "✅ Your draft has been assembled with sections, references, and quality checks.\nMarkdown saved to: p/r.md\nPDF saved to: p/r.pdf"
    );
    let long = deliver_report(&report(300)).materials.unwrap();
    assert!(long.len() > 1 && long.iter().all(|m| m.len() <= 3_800));
    let bare = deliver_report(&ResearchReport { artifacts: None, ..report(0) });
    assert!(bare.materials.unwrap().is_empty());
    assert!(bare.upload.is_none());
}

// The bridge

fn incoming(sender: &str, body: &str) -> WhatsAppBridgeMessage {
    WhatsAppBridgeMessage {
        sender: sender.to_string(),
        body: body.to_string(),
        push_name: String::new(),
        message_id: String::new(),
    }
}

const SECRET: &str = "local_dev_secret_123";

fn bridge_reply(s: &mut AppState, body: &str) -> String {
    match whatsapp_bridge_incoming(s, SECRET, &incoming("+234 80", body), 0) {
        BridgeOutcome::Reply { response } => response.reply.unwrap(),
        other => panic!("{other:?}"),
    }
}

#[test]
fn senders_have_keys() {
    assert_eq!(whatsapp_sender_key("+234 (80) 1"), 234_801);
    assert_eq!(whatsapp_sender_key("9223372036854775807"), i64::MAX);
    for sender in ["nobody", "9223372036854775808", ""] {
        let mut hasher = std::collections::hash_map::DefaultHasher::new();
        sender.hash(&mut hasher);
        let expected = (hasher.finish() & (i64::MAX as u64)) as i64;
        assert_eq!(whatsapp_sender_key(sender), expected);
    }
    assert_eq!(sender_key_with("x", u64::MAX), i64::MAX);
    assert_eq!(sender_key_with("7", u64::MAX), 7);
}

#[test]
fn strangers_are_refused() {
    let mut s = state();
    match whatsapp_bridge_incoming(&mut s, "guess", &incoming("1", "T"), 0) {
        BridgeOutcome::Unauthorized { response } => {
            assert_eq!(response.reply.as_deref(), Some("Unauthorized access to API."));
            assert!(response.document_base64.is_none());
        }
        other => panic!("{other:?}"),
    }
    let note = WhatsAppBridgeAudio {
        sender: "1".to_string(),
        push_name: String::new(),
        audio_base64: String::new(),
    };
    assert!(matches!(
        whatsapp_bridge_audio(&s, "guess", &note),
        BridgeOutcome::Unauthorized { .. }
    ));
    match whatsapp_bridge_audio(&s, SECRET, &note) {
        BridgeOutcome::Reply { response } => {
            assert!(response.reply.unwrap().starts_with("Voice note research is not enabled yet."))
        }
        other => panic!("{other:?}"),
    }
}

#[test]
fn only_allowed_users_are_served() {
    let mut s = AppState::new(config(&[("ALLOWED_USERS", "23480,5")]), Vec::new());
    for body in ["Tides", "hi", "/clear", ""] {
        match whatsapp_bridge_incoming(&mut s, SECRET, &incoming("23481", body), 0) {
            BridgeOutcome::Unauthorized { response } => {
                assert_eq!(response.reply.as_deref(), Some("Unauthorized access to API."));
            }
            other => panic!("{other:?}"),
        }
    }
    assert!(s.active_tasks.is_empty());
    assert!(s.rate_limits.is_empty());
    let note = |sender: &str| WhatsAppBridgeAudio {
        sender: sender.to_string(),
        push_name: String::new(),
        audio_base64: String::new(),
    };
    match whatsapp_bridge_audio(&s, SECRET, &note("23481")) {
        BridgeOutcome::Unauthorized { response } => {
            assert_eq!(response.reply.as_deref(), Some("Unauthorized access to API."));
        }
        other => panic!("{other:?}"),
    }
    assert!(matches!(
        whatsapp_bridge_audio(&s, SECRET, &note("5")),
        BridgeOutcome::Reply { .. }
    ));
    assert!(matches!(
        whatsapp_bridge_incoming(&mut s, SECRET, &incoming("+234 80", "Tides"), 0),
        BridgeOutcome::Start { sender_key: 23_480, .. }
    ));
    assert!(matches!(
        whatsapp_bridge_incoming(&mut s, "guess", &incoming("5", "Tides"), 0),
        BridgeOutcome::Unauthorized { .. }
    ));
}

#[test]
fn greetings_are_answered_with_help() {
    let mut s = state();
    for body in ["", " \u{1} ", "Hi", "hello professor", "HEY you", "/start", "hi there"] {
        assert_eq!(bridge_reply(&mut s, body), WHATSAPP_HELP_MESSAGE);
    }
    assert!(matches!(
        whatsapp_bridge_incoming(&mut s, SECRET, &incoming("2", "hi there, explain tides"), 0),
        BridgeOutcome::Start { .. }
    ));
}

#[test]
fn senders_have_one_task() {
    let mut s = state();
    match whatsapp_bridge_incoming(&mut s, SECRET, &incoming("+234 80", " Tides\u{7} "), 0) {
        BridgeOutcome::Start { sender_key, text } => {
            assert_eq!((sender_key, text.as_str()), (23_480, "Tides"));
        }
        other => panic!("{other:?}"),
    }
    assert!(silent_response().reply.is_none());
    assert!(bridge_reply(&mut s, "More").starts_with("⏳ You already have an active research task"));
    finish_task(&mut s, 23_480, "Tides");
    assert_eq!(get_chat_history(&s, 23_480), vec!["Tides"]);
    assert!(matches!(
        whatsapp_bridge_incoming(&mut s, SECRET, &incoming("+234 80", "More"), 0),
        BridgeOutcome::Start { .. }
    ));
    finish_task(&mut s, 23_480, "More");
    assert_eq!(bridge_reply(&mut s, "Again"), RATE_LIMIT_MESSAGE);
    assert!(bridge_reply(&mut s, "/CLEAR").starts_with("🔄 Your conversation memory"));
    assert!(get_chat_history(&s, 23_480).is_empty());
}

#[test]
fn full_reports_are_asked_for_by_a_mark() {
    assert_eq!(extract_full_report_topic(" Report: Tides ").as_deref(), Some("Tides"));
    assert_eq!(extract_full_report_topic("FULL REPORT: x").as_deref(), Some("x"));
    assert_eq!(extract_full_report_topic("pdf:é").as_deref(), Some("é"));
    assert_eq!(extract_full_report_topic("/report y").as_deref(), Some("y"));
    assert_eq!(extract_full_report_topic(" rEPORT: Énergie ΣΣ ").as_deref(), Some("Énergie ΣΣ"));
    assert_eq!(extract_full_report_topic("report: "), None);
    assert_eq!(extract_full_report_topic("a report: z"), None);
    match plan_task("report: Tides\nstyle: harvard") {
        BridgeTask::Report { asked, topic, reference_style } => {
            assert_eq!(asked, "Tides\nstyle: harvard");
            assert_eq!(topic, "Tides");
            assert_eq!(reference_style, ReferenceStyle::Harvard);
        }
        other => panic!("{other:?}"),
    }
    match plan_task("Tides") {
        BridgeTask::Brief { topic } => assert_eq!(topic, "Tides"),
        other => panic!("{other:?}"),
    }
}

#[test]
fn models_are_asked_for_briefs() {
    assert!(reformulate_request(&Vec::new(), "q").is_none());
    let again = reformulate_request(&vec!["a".to_string()], "q").unwrap();
    assert_eq!((again.temperature_percent, again.max_output_tokens), (10, 150));
    let brief = brief_request("Tides", &report(2).sources);
    assert!(brief.prompt.starts_with("User topic:\nTides\n\nEvidence pack:\n[1] type=web | title=S0 |"));
    assert!(brief.prompt.contains("- Total sources: 2\n- Public-domain books with legal download links: 0\n"));
    assert_eq!((brief.temperature_percent, brief.max_output_tokens), (35, 1400));
    let done = run_whatsapp_research_brief("Tides", report(1).sources, &Some(" yes ".to_string()));
    assert_eq!((done.topic.as_str(), done.answer.as_str(), done.sources.len()), ("Tides", "yes", 1));
    let plain = run_whatsapp_research_brief("Tides", Vec::new(), &None);
    assert!(plain.answer.starts_with("Research brief: Tides\n\n"));
    assert_eq!(preparing_message("x"), "⏳ Preparing full research report for \"x\"...");
    assert_eq!(researching_message("x"), "🔎 Researching brief for \"x\"...");
}

#[test]
fn documents_are_sent_in_base64() {
    for (data, expected) in [
        (vec![], ""),
        (vec![0x66u8], "Zg=="),
        (vec![0x66, 0x6f], "Zm8="),
        (vec![0x66, 0x6f, 0x6f], "Zm9v"),
        (vec![0xfb, 0xff, 0xfe, 0x00], "+//+AA=="),
    ] {
        match deliver_document("T", &Some(data)) {
            ReportDelivery::Document { base64, file_name, caption } => {
                assert_eq!(base64, expected);
                assert_eq!(file_name, "report.pdf");
                assert_eq!(caption, "📊 Your Research Report: T");
            }
            other => panic!("{other:?}"),
        }
    }
    match deliver_document("T", &None) {
        ReportDelivery::Message { text } => {
            assert_eq!(text, "✅ Research completed for \"T\" but failed to attach PDF.")
        }
        other => panic!("{other:?}"),
    }
}

#[test]
fn errors_are_told_by_their_kind() {
    let told = |e: &str| sanitize_error_for_user(e, "T");
    assert!(told("“Größe” — Rate LIMIT reached").starts_with("⏳ I'm temporarily overloaded"));
    assert!(told("HTTP 429 at https://x").starts_with("⏳"));
    assert!(told("QUOTA").starts_with("⏳"));
    assert!(told("operation timed out").starts_with("⏱️ The research for \"T\" took too long."));
    assert!(told("GOOGLE_API_KEY is empty").starts_with("🤔"));
    assert_eq!(
        told("secret https://host/key"),
        "❌ I ran into an issue while researching \"T\". Please try again in a moment!"
    );
}

// Feedback

#[test]
fn feedback_is_counted() {
    let list = vec![
        feedback(FeedbackRating::Excellent, None),
        feedback(FeedbackRating::Poor, None),
        feedback(FeedbackRating::Poor, None),
    ];
    let c = count_feedback(&list);
    assert_eq!((c.total, c.excellent, c.good, c.needs_work, c.poor), (3, 1, 0, 0, 2));
    assert!(is_admin(&Some("k".to_string()), "k"));
    assert!(!is_admin(&None, "k"));
    assert!(is_admin(&None, ""));
}

#[test]
fn prompts_tell_of_feedback() {
    assert_eq!(build_feedback_aware_prompt("base", &Vec::new()), "base");
    let mut list = vec![feedback(FeedbackRating::Good, Some("fine"))];
    assert_eq!(
        build_feedback_aware_prompt("base", &list),
        "base\n\n--- USER FEEDBACK INTELLIGENCE ---\nBased on 1 user evaluations: 0 excellent, 1 good, 0 needs work, 0 poor.\n\nRecent user comments on generated reports:\n- [👍 Good] fine\nApply these insights to improve the quality of all future reports.\n--- END FEEDBACK INTELLIGENCE ---\n"
    );
    for i in 0..12 {
        list.push(feedback(FeedbackRating::Poor, Some(&format!("no {i}"))));
    }
    let prompt = build_feedback_aware_prompt("base", &list);
    assert!(prompt.contains("- [👎 Poor] no 8\n\nIMPORTANT: A significant portion of users"));
    assert!(!prompt.contains("no 9"));
}

#[test]
fn feedback_files_are_named_by_time() {
    let f = feedback(FeedbackRating::Good, None);
    assert_eq!(
        feedback_file_name("./feedback", &f).unwrap(),
        "./feedback/20260101T120000Z--42.json"
    );
    assert_eq!(stamped_file_name("d", "stamp", 7), "d/stamp-7.json");
    let never = UserFeedback { timestamp: Timestamp { secs: i64::MAX, nanos: 0 }, ..f };
    assert_eq!(feedback_file_name("d", &never), None);
}

#[test]
fn newest_feedback_files_come_first() {
    let names: Vec<String> = ["b.json", "a.json", "c.txt", ".json", "d.json", "json", "x.y.json"]
        .iter()
        .map(|s| s.to_string())
        .collect();
    assert_eq!(recent_feedback_files(&names, 3), vec!["x.y.json", "d.json", "b.json"]);
    assert_eq!(recent_feedback_files(&names, 50).len(), 4);
    assert!(recent_feedback_files(&names, 0).is_empty());
    assert_eq!(all_feedback_files(&names), vec!["x.y.json", "d.json", "b.json", "a.json"]);
}

#[test]
fn all_feedback_files_are_found() {
    let names: Vec<String> = (0..1200).map(|n| format!("{n:05}.json")).collect();
    let found = all_feedback_files(&names);
    let expected: Vec<String> = names.iter().rev().cloned().collect();
    assert_eq!(found, expected);
    assert_eq!(recent_feedback_files(&names, 1000), expected[..1000].to_vec());
}

#[test]
fn later_feedback_sorts_above() {
    let name = |secs| {
        let f = UserFeedback {
            chat_id: 1_000_000 - secs % 7,
            timestamp: Timestamp { secs, nanos: 999_999_999 },
            ..feedback(FeedbackRating::Good, None)
        };
        feedback_file_name("d", &f).unwrap()
    };
    assert!(name(951_827_199).starts_with("d/20000229T122639Z-"));
    assert!(name(1_709_251_199).starts_with("d/20240229T235959Z-"));
    assert!(name(-1).starts_with("d/19691231T235959Z-"));
    assert!(name(-62_167_219_200).starts_with("d/00000101T000000Z-"));
    assert!(name(253_402_300_799).starts_with("d/99991231T235959Z-"));
    let mut secs = -62_167_219_200i64;
    let mut before = name(secs);
    while secs + 86_399 * 367 <= 253_402_300_799 {
        secs += 86_399 * 367;
        let next = name(secs);
        assert!(before < next, "{before} {next}");
        before = next;
    }
}
