use research_bot::blueprint::{
    assemble_sections_in_spec_order, document_spec_for_tier, minimum_words_for_section,
    minimum_words_for_section_part, section_blueprint, section_part, section_part_token_budget,
    section_token_budget, should_defer_section_generation,
};
use research_bot::drafting::{PartStep, PartWork, SectionStep, SectionWork};
use research_bot::json::Json;
use research_bot::model_call::{
    model_body, model_step, model_url, retry_delay_secs, retry_delay_text, text_of_reply, ModelKind,
    ModelReply, ModelRequest, ModelStep,
};
use research_bot::models::{
    ReferenceStyle, ResearchPlan, ResearchSection, ResearchSource, ResearchTier,
};
use research_bot::prompts::{
    build_research_plan_prompt, fallback_research_plan, reformulate_query, reformulation_request,
    SectionGenerationContext, PROFESSOR_SYSTEM_PROMPT, WHATSAPP_RESEARCH_SYSTEM_PROMPT,
};
use research_bot::quality::{
    analyze_report_quality, evaluate_section_part_quality, evaluate_section_quality,
    identify_sections_for_revision, summarize_section_revision_need,
};
use research_bot::report::{
    found_message, generate_research_plan, settle_plan, ReportStage, ReportStep, ReportWork,
};

fn plan() -> ResearchPlan {
    fallback_research_plan(
        " Warehouses ",
        &ResearchTier::Preview,
        &document_spec_for_tier(&ResearchTier::Preview),
    )
}

fn section(heading: &str, content: &str, words: usize) -> ResearchSection {
    ResearchSection {
        heading: heading.to_string(),
        target_words: 100,
        actual_words: words,
        content: content.to_string(),
    }
}

/// A text of `n` words with `m` citations at its end.
fn prose(n: usize, m: usize) -> String {
    let mut words: Vec<String> = vec!["evidence".to_string(); n.saturating_sub(2 * m)];
    for _ in 0..m {
        words.push("(Ada, 2024)".to_string());
    }
    format!("{}.", words.join(" "))
}

#[test]
fn plain_plan_names_the_topic() {
    let p = plan();
    assert_eq!(p.title, "A Research Study on Warehouses");
    assert!(p.thesis.starts_with("This abstract and table of contents argues that Warehouses should"));
    assert_eq!(p.research_questions.len(), 3);
    assert_eq!(p.keywords[1], "Preview (Free)");
    let kept = settle_plan(Some(plan()), "x", &ResearchTier::Complete);
    assert_eq!(kept.title, "A Research Study on Warehouses");
    let made = settle_plan(None, "x", &ResearchTier::Complete);
    assert_eq!(made.title, "A Research Study on x");
}

#[test]
fn blueprints_add_up() {
    for tier in ResearchTier::all() {
        let spec = document_spec_for_tier(&tier);
        let mut words = 0;
        let mut citations = 0;
        for b in &spec.section_blueprints {
            assert_eq!(b.parts.iter().map(|p| p.target_words).sum::<usize>(), b.target_words);
            assert_eq!(
                b.parts.iter().map(|p| p.minimum_citations).sum::<usize>(),
                b.minimum_citations
            );
            words += b.target_words;
            citations += b.minimum_citations;
        }
        assert!(words >= spec.minimum_words);
        assert!(citations >= tier.citation_target());
        assert_eq!(spec.deliverable, tier.deliverable_name());
        assert_eq!(spec.include_source_matrix, tier == ResearchTier::Complete);
    }
    assert_eq!(document_spec_for_tier(&ResearchTier::Preview).section_blueprints.len(), 4);
    assert_eq!(document_spec_for_tier(&ResearchTier::Complete).section_blueprints[5].heading, "Conclusion");
}

#[test]
fn floors_and_budgets_follow_the_target() {
    let b = |n| section_blueprint("H", "b", n, "c", 1, Vec::new());
    let p = |n| section_part("L", "b", n, 0);
    assert_eq!(minimum_words_for_section(&b(350)), 70);
    assert_eq!(minimum_words_for_section_part(&p(175)), 52);
    assert_eq!(section_token_budget(&b(350)), 700);
    assert_eq!(section_token_budget(&b(usize::MAX)), 8192);
    assert_eq!(section_part_token_budget(&p(10)), 768);
    assert_eq!(section_part_token_budget(&p(1300)), 2600);
    assert_eq!(section_part_token_budget(&p(usize::MAX)), 4096);
}

#[test]
fn sections_come_in_the_order_of_the_report() {
    assert!(should_defer_section_generation("Abstract"));
    assert!(should_defer_section_generation("Executive Summary"));
    assert!(!should_defer_section_generation("Introduction"));
    let spec = document_spec_for_tier(&ResearchTier::Preview);
    let drafted = vec![
        section("Recommendations", "r", 1),
        section("Background and Context", "b", 1),
        section("Key Findings and Analysis", "k", 1),
    ];
    let deferred = vec![section("Executive Summary", "e", 1)];
    let ordered = assemble_sections_in_spec_order(&spec, &drafted, &deferred).unwrap();
    let contents: Vec<&str> = ordered.iter().map(|s| s.content.as_str()).collect();
    assert_eq!(contents, vec!["e", "b", "k", "r"]);
    assert_eq!(
        assemble_sections_in_spec_order(&spec, &Vec::new(), &deferred).err().unwrap(),
        "Section 'Background and Context' was missing when assembling the final report order"
    );
}

#[test]
fn sections_are_assessed() {
    let b = section_blueprint("Intro", "b", 50, "c", 2, Vec::new());
    let a = evaluate_section_quality("## Intro\n\nToo short (Ada, 2024).\n- note\nContext: x", &b);
    assert!(!a.passes() && !a.prose_only());
    assert_eq!(
        a.failure_summary(),
        "too few citations (1 found, need at least 2); contains 1 bullet/outline lines; contains meta/outlining markers: context:"
    );
    let short = evaluate_section_quality("no heading", &b);
    assert_eq!(
        short.failure_summary(),
        "missing section heading; too short (2 words, need at least 10); too few citations (0 found, need at least 2)"
    );
    let good = evaluate_section_quality(&format!("## Intro\n\n{}", prose(20, 2)), &b);
    assert!(good.passes());
    assert_eq!(good.failure_summary(), "");
    let p = section_part("L", "b", 10, 1);
    let part = evaluate_section_part_quality("one", &p);
    assert_eq!(
        part.failure_summary(),
        "too short (1 words, need at least 3); too few citations (0 found, need at least 1)"
    );
    assert!(evaluate_section_part_quality(&prose(9, 1), &p).passes());
}

#[test]
fn weak_sections_are_revised() {
    let spec = document_spec_for_tier(&ResearchTier::Preview);
    let good = |h: &str, n: usize| section(h, &format!("## {h}\n\n{}", prose(n, 2)), 10_000);
    let list = vec![
        good("Executive Summary", 200),
        section("Background and Context", "weak", 10_000),
        good("Key Findings and Analysis", 200),
        good("Recommendations", 200),
    ];
    let quality = analyze_report_quality("", &spec, 3, &ReferenceStyle::Apa);
    assert_eq!(identify_sections_for_revision(&list, &spec, &quality), vec![1]);
    let need = summarize_section_revision_need(&list[1], &spec.section_blueprints[1], &quality);
    assert!(need.starts_with("missing section heading; too short (1 words, need at least 90);"));
    assert!(need.contains("the overall paper is still too short"));
    assert!(need.ends_with("so this section should cite evidence more often"));
    let all_good = vec![
        good("Executive Summary", 200),
        good("Background and Context", 200),
        good("Key Findings and Analysis", 200),
        good("Recommendations", 200),
    ];
    assert_eq!(identify_sections_for_revision(&all_good, &spec, &quality), vec![0, 1, 2, 3]);
    assert_eq!(identify_sections_for_revision(&Vec::new(), &spec, &quality), vec![0, 1, 2, 3]);
}

fn answer(status: u16, json: Json) -> ModelReply {
    ModelReply::Answer { status, json }
}

fn object(entries: Vec<(&str, Json)>) -> Json {
    Json::Object(entries.into_iter().map(|(k, v)| (k.to_string(), v)).collect())
}

fn reply_with(parts: Vec<Json>) -> Json {
    object(vec![(
        "candidates",
        Json::Array(vec![object(vec![(
            "content",
            object(vec![("parts", Json::Array(parts))]),
        )])]),
    )])
}

fn error_reply(message: &str) -> Json {
    object(vec![("error", object(vec![("message", Json::Text(message.to_string()))]))])
}

#[test]
fn thoughts_are_skipped() {
    let thought = object(vec![
        ("thought", Json::Bool(true)),
        ("text", Json::Text("hmm".to_string())),
    ]);
    let image = object(vec![("inlineData", Json::Null)]);
    let said = object(vec![("text", Json::Text("```json\nsaid\n```".to_string()))]);
    let json = reply_with(vec![thought, image, said]);
    assert_eq!(text_of_reply(&json).as_deref(), Some("```json\nsaid\n```"));
    match model_step(ModelKind::Prose, 0, &answer(200, json)) {
        ModelStep::Done { text } => assert_eq!(text, "said"),
        other => panic!("{other:?}"),
    }
}

#[test]
fn plans_keep_their_fences() {
    let said = object(vec![("text", Json::Text("```json\n{}\n```".to_string()))]);
    match model_step(ModelKind::Planning, 0, &answer(200, reply_with(vec![said]))) {
        ModelStep::Done { text } => assert_eq!(text, "```json\n{}\n```"),
        other => panic!("{other:?}"),
    }
    match model_step(ModelKind::Planning, 0, &answer(200, Json::Null)) {
        ModelStep::Fail { error } => assert_eq!(error, "No JSON text content in planning response"),
        other => panic!("{other:?}"),
    }
    match model_step(ModelKind::Prose, 0, &answer(204, Json::Null)) {
        ModelStep::Fail { error } => assert_eq!(error, "No text content in model response"),
        other => panic!("{other:?}"),
    }
}

#[test]
fn calls_are_made_again() {
    let busy = || answer(503, error_reply("Overloaded. Please retry in 14.59s"));
    match model_step(ModelKind::Prose, 0, &busy()) {
        ModelStep::Wait { attempt, hint } => {
            assert_eq!(attempt, 1);
            assert_eq!(hint.as_deref(), Some("14.59"));
        }
        other => panic!("{other:?}"),
    }
    match model_step(ModelKind::Planning, 2, &busy()) {
        ModelStep::Wait { attempt, hint } => {
            assert_eq!(attempt, 3);
            assert_eq!(hint, None);
        }
        other => panic!("{other:?}"),
    }
    match model_step(ModelKind::Prose, 3, &busy()) {
        ModelStep::Fail { error } => assert_eq!(
            error,
            "Model API error (503 Service Unavailable): Overloaded. Please retry in 14.59s"
        ),
        other => panic!("{other:?}"),
    }
    match model_step(ModelKind::Planning, 0, &answer(429, error_reply("Quota Exceeded"))) {
        ModelStep::Fail { error } => assert_eq!(
            error,
            "Model JSON planning error (429 Too Many Requests): Quota Exceeded"
        ),
        other => panic!("{other:?}"),
    }
    let lost = || ModelReply::Unreachable { error: "reset".to_string() };
    assert!(matches!(
        model_step(ModelKind::Prose, 2, &lost()),
        ModelStep::Wait { attempt: 3, hint: None }
    ));
    match model_step(ModelKind::Prose, 3, &lost()) {
        ModelStep::Fail { error } => {
            assert_eq!(error, "Google Generative Language request failed: reset")
        }
        other => panic!("{other:?}"),
    }
    match model_step(ModelKind::Planning, 3, &lost()) {
        ModelStep::Fail { error } => assert_eq!(error, "Google JSON planning request failed: reset"),
        other => panic!("{other:?}"),
    }
    let garbled = || ModelReply::Unreadable { error: "eof".to_string() };
    match model_step(ModelKind::Prose, 0, &garbled()) {
        ModelStep::Fail { error } => assert_eq!(error, "Failed to parse model response: eof"),
        other => panic!("{other:?}"),
    }
    match model_step(ModelKind::Planning, 0, &garbled()) {
        ModelStep::Fail { error } => {
            assert_eq!(error, "Failed to parse JSON planning response: eof")
        }
        other => panic!("{other:?}"),
    }
}

#[test]
fn delays_grow_or_are_asked_for() {
    assert_eq!(retry_delay_secs(1, None), 30);
    assert_eq!(retry_delay_secs(2, None), 60);
    assert_eq!(retry_delay_secs(3, None), 120);
    assert_eq!(retry_delay_secs(1, Some(15)), 15);
    assert_eq!(retry_delay_secs(1, Some(2)), 5);
    assert_eq!(retry_delay_text("PLEASE RETRY IN 7s").as_deref(), Some("7"));
    assert_eq!(retry_delay_text("retry in a while").as_deref(), Some(""));
    assert_eq!(retry_delay_text("later"), None);
}

#[test]
fn model_calls_are_addressed_and_filled() {
    assert_eq!(model_url("", "m").err().unwrap(), "GOOGLE_API_KEY is empty");
    assert_eq!(
        model_url("k", "gemma").unwrap(),
        "https://generativelanguage.googleapis.com/v1beta/models/gemma:generateContent?key=k"
    );
    let request = ModelRequest {
        kind: ModelKind::Planning,
        system: PROFESSOR_SYSTEM_PROMPT,
        prompt: "do it".to_string(),
        temperature_percent: 10,
        max_output_tokens: 1600,
    };
    let body = model_body(&request);
    let settings = body.at("generationConfig");
    assert_eq!(settings.at("maxOutputTokens").as_integer(), Some(1600));
    assert_eq!(settings.at("responseMimeType").text_or(""), "application/json");
    let contents = body.at("contents").as_items().unwrap();
    assert_eq!(contents[0].at("role").text_or(""), "user");
    assert_eq!(contents[0].at("parts").as_items().unwrap()[0].at("text").text_or(""), "do it");
    let instruction = body.at("systemInstruction").at("parts").as_items().unwrap();
    assert_eq!(instruction[0].at("text").text_or(""), PROFESSOR_SYSTEM_PROMPT);
}

#[test]
fn prompts_are_whole() {
    assert!(PROFESSOR_SYSTEM_PROMPT.starts_with("You are Professor AI, a world-class academic researcher.\n\n⚠️ CRITICAL OUTPUT RULE"));
    assert!(PROFESSOR_SYSTEM_PROMPT.ends_with("- When asked for JSON, return valid JSON only."));
    assert!(WHATSAPP_RESEARCH_SYSTEM_PROMPT.ends_with("\n\nReturn plain text only."));
    let spec = document_spec_for_tier(&ResearchTier::Starter);
    let prompt = build_research_plan_prompt(
        "T",
        &ResearchTier::Starter,
        &ReferenceStyle::Apa,
        &spec,
        &Vec::new(),
    );
    assert!(prompt.starts_with("Prepare a plan for a abstract, TOC, introduction, and literature review on the topic below.\n\nTopic: T\nTier: Starter\nReference style: APA 7th edition\nCitation target: 5\nMinimum word count: 2000\n\nEvidence dossier:\nNo live sources"));
    assert!(prompt.contains("no markdown:\n{\n\"title\": \"specific scholarly title\",\n"));
    assert!(prompt.ends_with("how to use the evidence\"\n}"));
    let request = generate_research_plan("T", &ResearchTier::Starter, &ReferenceStyle::Apa, &Vec::new());
    assert_eq!(request.prompt, prompt);
    assert_eq!((request.temperature_percent, request.max_output_tokens), (10, 1600));
    assert_eq!(found_message(12), "Found 12 sources. Planning argumentative structure...");
}

#[test]
fn follow_up_questions_are_rewritten() {
    assert!(reformulation_request(&Vec::new(), "and then?").is_none());
    let history = vec!["first".to_string(), "second".to_string()];
    assert_eq!(
        reformulation_request(&history, "and then?").unwrap(),
        "Conversation history:\n1. first\n2. second\n\nNew follow-up question: and then?\n\nRewrite the follow-up into a self-contained research query:"
    );
    assert_eq!(reformulate_query("q", &Some(" better \n".to_string())), "better");
    assert_eq!(reformulate_query("q", &Some("  ".to_string())), "q");
    assert_eq!(reformulate_query("q", &Some("x".repeat(501))), "q");
    assert_eq!(reformulate_query("q", &Some("x".repeat(500))), "x".repeat(500));
    assert_eq!(reformulate_query("q", &None), "q");
}

#[test]
fn parts_are_drafted_edited_and_judged() {
    let b = section_blueprint("Intro", "b", 50, "c", 1, vec![section_part("Focus", "pb", 10, 1)]);
    let p = &b.parts[0];
    let plan = plan();
    let sources: Vec<ResearchSource> = Vec::new();
    let previous: Vec<ResearchSection> = Vec::new();
    let context = SectionGenerationContext {
        topic: "T",
        tier: ResearchTier::Preview,
        reference_style: ReferenceStyle::Apa,
        plan: &plan,
        sources: &sources,
        previous_sections: &previous,
    };
    let work = PartWork::new();
    let first = work.request(&context, &b, p, &Vec::new());
    assert!(first.prompt.starts_with("Write only the next polished prose fragment"));
    assert_eq!((first.temperature_percent, first.max_output_tokens), (30, 768));
    let mut work = match work.reply(&b, p, "- Context: a draft") {
        PartStep::Continue { work } => work,
        other => panic!("{other:?}"),
    };
    assert_eq!(work.draft.as_deref(), Some("a draft."));
    let review = work.request(&context, &b, p, &Vec::new());
    assert!(review.prompt.starts_with("Act as a strict academic editor. Clean and strengthen the prose fragment"));
    assert!(review.prompt.contains("\n\nDraft:\na draft.\n\n"));
    assert_eq!(review.temperature_percent, 15);
    for attempt in 1..3 {
        work = match work.reply(&b, p, "too short") {
            PartStep::Continue { work } => work,
            other => panic!("{other:?}"),
        };
        assert_eq!(work.attempt, attempt);
        let again = work.request(&context, &b, p, &Vec::new());
        assert!(again.prompt.contains("Problems found in the previous fragment draft: too short (2 words, need at least 3); too few citations (0 found, need at least 1)\n"));
        assert_eq!(again.temperature_percent, 18);
        work = match work.reply(&b, p, "draft") {
            PartStep::Continue { work } => work,
            other => panic!("{other:?}"),
        };
    }
    match work.reply(&b, p, "too short") {
        PartStep::Failed { error } => assert_eq!(
            error,
            "Section 'Intro' fragment 'Focus' failed quality checks after 3 attempts: too short (2 words, need at least 3); too few citations (0 found, need at least 1)"
        ),
        other => panic!("{other:?}"),
    }
    assert!(matches!(
        PartWork::new().reply(&b, p, "- tone chec\u{212a}:"),
        PartStep::Stuck
    ));
}

#[test]
fn sections_are_seeded_and_revised() {
    let b = section_blueprint("Intro", "b", 50, "c", 2, vec![section_part("Focus", "pb", 10, 1)]);
    let plan = plan();
    let sources: Vec<ResearchSource> = Vec::new();
    let previous: Vec<ResearchSection> = Vec::new();
    let context = SectionGenerationContext {
        topic: "T",
        tier: ResearchTier::Preview,
        reference_style: ReferenceStyle::Apa,
        plan: &plan,
        sources: &sources,
        previous_sections: &previous,
    };
    let start = || match SectionWork::start(&b) {
        SectionStep::Continue { work } => work,
        other => panic!("{other:?}"),
    };
    let seeded = || {
        let work = match start().reply(&b, "draft") {
            SectionStep::Continue { work } => work,
            other => panic!("{other:?}"),
        };
        match work.reply(&b, &prose(20, 1)) {
            SectionStep::Continue { work } => work,
            other => panic!("{other:?}"),
        }
    };
    let work = seeded();
    let request = work.request(&context, &b);
    assert!(request.prompt.starts_with("Rewrite the draft below into a publishable academic section."));
    assert!(request.prompt.contains("Problems found in the previous draft: too few citations (1 found, need at least 2)\n"));
    assert_eq!((request.temperature_percent, request.max_output_tokens), (20, 100));
    match work.reply(&b, &prose(20, 2)) {
        SectionStep::Done { section } => {
            assert_eq!(section.heading, "Intro");
            assert!(section.content.starts_with("## Intro\n\nevidence"));
            assert_eq!(section.actual_words, 22);
        }
        other => panic!("{other:?}"),
    }
    let mut work = seeded();
    for _ in 0..2 {
        work = match work.reply(&b, "short") {
            SectionStep::Continue { work } => work,
            other => panic!("{other:?}"),
        };
    }
    match work.reply(&b, "short") {
        SectionStep::Failed { error } => assert!(error.starts_with(
            "Section 'Intro' failed quality checks after 4 attempts: too short (3 words"
        )),
        other => panic!("{other:?}"),
    }
}

fn drive(tier: ResearchTier, references: Result<String, String>, per_section: usize) -> (ReportStep, Vec<String>) {
    let mut told: Vec<String> = Vec::new();
    let mut step = ReportWork::start("T", tier, ReferenceStyle::Apa, plan(), Vec::new());
    loop {
        match step {
            ReportStep::Continue { work, progress, .. } => {
                told.extend(progress);
                let request = work.request();
                assert!(!request.prompt.is_empty());
                let reply = match &work.stage {
                    ReportStage::Compiling { .. } => references.clone(),
                    _ => Ok(prose(1600, per_section)),
                };
                step = work.reply(reply);
            }
            other => return (other, told),
        }
    }
}

#[test]
fn reports_are_written_to_the_end() {
    let (end, told) = drive(ResearchTier::Preview, Ok("A reference.".to_string()), 8);
    match end {
        ReportStep::Done { report, progress } => {
            assert_eq!(progress, vec!["Quality checks passed. Assembling final PDF..."]);
            let headings: Vec<&str> = report.sections.iter().map(|s| s.heading.as_str()).collect();
            assert_eq!(
                headings,
                vec!["Executive Summary", "Background and Context", "Key Findings and Analysis", "Recommendations"]
            );
            assert!(report.markdown.starts_with("# A Research Study on Warehouses\n\nTopic: T\nDeliverable: abstract and table of contents\nTier: Preview (Free)\nReference style: APA 7th edition\nCitation target: 3\nKeywords: Warehouses, Preview (Free), "));
            assert!(report.markdown.ends_with("## References\n\nA reference.\n"));
            assert!(report.quality.citation_target_met && report.artifacts.is_none());
            assert_eq!(report.estimated_page_count, report.total_word_count.div_ceil(500));
            assert!(report.abstract_preview.unwrap().ends_with("..."));
        }
        other => panic!("{other:?}"),
    }
    assert_eq!(
        told,
        vec![
            "Plan created. Drafting core chapters...",
            "Drafted: Background and Context",
            "Drafted: Key Findings and Analysis",
            "Drafted: Recommendations",
            "Drafted: Executive Summary",
            "Compiling references and running academic quality checks...",
        ]
    );
}

#[test]
fn references_fall_back_on_the_sources() {
    let (end, _) = drive(ResearchTier::Preview, Err("down".to_string()), 8);
    match end {
        ReportStep::Done { report, .. } => assert!(report.references.starts_with(
            "## References\n\nRetrieved live sources were unavailable"
        )),
        other => panic!("{other:?}"),
    }
}

#[test]
fn refused_reports_are_revised_twice() {
    // The second line of the topic is a list item, so that no revision helps.
    let mut step =
        ReportWork::start("T\n- item", ResearchTier::Preview, ReferenceStyle::Apa, plan(), Vec::new());
    let mut compiled = 0;
    let mut rewritten = 0;
    let mut edited = 0;
    let mut pauses = Vec::new();
    let error = loop {
        match step {
            ReportStep::Continue { work, pause_secs, .. } => {
                if pause_secs > 0 {
                    pauses.push(pause_secs);
                }
                let prompt = work.request().prompt;
                match &work.stage {
                    ReportStage::Drafting { .. } => {}
                    ReportStage::Compiling { pass, .. } => {
                        assert_eq!(*pass, compiled);
                        compiled += 1;
                    }
                    ReportStage::Revising { draft: None, .. } => {
                        assert!(prompt.contains("the overall paper still contains outline/meta language"));
                        rewritten += 1;
                    }
                    ReportStage::Revising { .. } => {
                        assert!(prompt.starts_with("Act as a strict academic editor."));
                        edited += 1;
                    }
                }
                step = work.reply(Ok(prose(1600, 8)));
            }
            ReportStep::Failed { error, progress } => {
                assert!(progress.is_empty());
                break error;
            }
            other => panic!("{other:?}"),
        }
    };
    assert_eq!(compiled, 3);
    assert_eq!((rewritten, edited), (8, 8));
    assert_eq!(pauses, vec![20, 20]);
    assert_eq!(
        error,
        "Report failed quality gates after 2 revision passes: contains bullet or outline formatting"
    );
}

#[test]
fn failed_calls_end_the_report() {
    match ReportWork::start("T", ResearchTier::Complete, ReferenceStyle::Apa, plan(), Vec::new()) {
        ReportStep::Continue { work, .. } => match work.reply(Err("GOOGLE_API_KEY is empty".to_string())) {
            ReportStep::Failed { error, progress } => {
                assert_eq!(error, "GOOGLE_API_KEY is empty");
                assert!(progress.is_empty());
            }
            other => panic!("{other:?}"),
        },
        other => panic!("{other:?}"),
    }
}
