use research_bot::blueprint::{document_spec_for_tier, DocumentSpec, SectionBlueprint};
use research_bot::excerpt::{extract_json_object, has_crossed_braces, slugify};
use research_bot::model_call::should_retry_model_status;
use research_bot::models::{ReferenceStyle, ResearchTier};
use research_bot::outline::{collect_banned_phrase_hits, convert_outline_fragment_to_prose};
use research_bot::quality::{
    analyze_report_quality, count_citation_mentions, count_words, estimate_page_count,
    report_body_for_quality, report_failure_summary, report_quality_passes,
};
use research_bot::sections::{
    assemble_section_from_parts, convert_outline_section_to_prose, normalize_references_section,
    normalize_section_markdown, normalize_section_part, section_body_preview, strip_code_fences,
};

#[test]
fn extract_json_handles_fenced_or_prefixed_text() {
    let raw = "Here you go\n```json\n{\"title\":\"Test\",\"thesis\":\"A\",\"methodology\":\"B\",\"research_questions\":[\"Q1\"],\"keywords\":[\"k\"],\"writing_guidance\":\"Guide\"}\n```";
    let json = extract_json_object(raw).expect("json object");
    assert!(json.starts_with('{'));
    assert!(json.ends_with('}'));
}

#[test]
fn extract_json_reports_what_is_missing() {
    assert_eq!(
        extract_json_object("nothing"),
        Err("No JSON object start found in planner response".to_string())
    );
    assert_eq!(
        extract_json_object("{ open"),
        Err("No JSON object end found in planner response".to_string())
    );
    assert_eq!(extract_json_object("}{"), Ok(String::new()));
    assert_eq!(extract_json_object("é {\"a\":{}} é"), Ok("{\"a\":{}}".to_string()));
    assert!(has_crossed_braces("} x {"));
    assert!(!has_crossed_braces("}{"));
    assert!(!has_crossed_braces("{}"));
}

#[test]
fn quality_flags_missing_headings_and_bullets() {
    let spec = document_spec_for_tier(&ResearchTier::Preview);
    let markdown = "# Title\n\n## Executive Summary\n\nGood prose.\n\n- bullet\n";
    let quality = analyze_report_quality(markdown, &spec, 3, &ReferenceStyle::Apa);
    assert!(!quality.required_headings_present);
    assert!(!quality.bullet_free);
    assert!(quality
        .missing_headings
        .contains(&"Background and Context".to_string()));
}

#[test]
fn refused_report_names_its_reasons() {
    let spec = document_spec_for_tier(&ResearchTier::Preview);
    let markdown = "# Title\n\n## Executive Summary\n\nDrafting: notes\n\n- bullet\n";
    let quality = analyze_report_quality(markdown, &spec, 3, &ReferenceStyle::Apa);
    assert!(!report_quality_passes(&quality));
    assert_eq!(
        report_failure_summary(&quality),
        "missing headings: Background and Context, Key Findings and Analysis, Recommendations; \
         missing bibliography/references section; \
         contains bullet or outline formatting; \
         contains prose violations: drafting:; \
         word count too low (9 of 100); \
         citation count too low (0 of target 3)"
    );
}

#[test]
fn banned_markers_are_detected() {
    let hits = collect_banned_phrase_hits("Drafting:\nParagraph 1:\nReal prose.");
    assert!(hits.iter().any(|hit| hit.contains("drafting:")));
    assert!(hits.iter().any(|hit| hit.contains("paragraph")));
}

#[test]
fn banned_markers_come_once_and_in_order() {
    let hits = collect_banned_phrase_hits(
        "Tone check: ok\n  Theme 2 of it\nDRAFTING: x\ntone check: again\nIntro: y",
    );
    assert_eq!(hits, vec!["drafting:", "intro: y", "theme 2", "tone check:"]);
}

#[test]
fn quality_ignores_numbered_references_for_prose_and_citations() {
    let spec = DocumentSpec {
        deliverable: "paper",
        minimum_words: 10,
        section_blueprints: vec![SectionBlueprint {
            heading: "Introduction",
            brief: "Set up the topic",
            target_words: 10,
            citation_expectation: "Use at least one citation.",
            minimum_citations: 1,
            parts: Vec::new(),
        }],
        include_source_matrix: false,
    };
    let markdown = "# Title\n\n## Introduction\n\nFinal prose with evidence (Ada, 2024).\n\n## References\n\n1. Ada, A. (2024). Example article.\n2. Baker, B. (2023). Another article.\n";
    let quality = analyze_report_quality(markdown, &spec, 1, &ReferenceStyle::Apa);

    assert!(quality.references_present);
    assert!(quality.bullet_free);
    assert!(quality.prose_only);
    assert_eq!(quality.citation_mentions, 1);
    assert_eq!(
        quality.actual_word_count,
        count_words(&report_body_for_quality(markdown, &ReferenceStyle::Apa))
    );
    assert!(report_quality_passes(&quality));
    assert_eq!(report_failure_summary(&quality), "");
}

#[test]
fn quota_exhaustion_429_is_not_retried() {
    assert!(!should_retry_model_status(
        reqwest::StatusCode::TOO_MANY_REQUESTS.as_u16(),
        "Quota exceeded for metric: generativelanguage.googleapis.com/generate_content_paid_tier_input_token_count"
    ));
    assert!(should_retry_model_status(
        reqwest::StatusCode::TOO_MANY_REQUESTS.as_u16(),
        "Transient rate limit hit, please retry in 10 seconds"
    ));
    assert!(should_retry_model_status(
        reqwest::StatusCode::SERVICE_UNAVAILABLE.as_u16(),
        "Backend overloaded"
    ));
}

#[test]
fn slugify_collapses_symbols() {
    assert_eq!(
        slugify("AI & Supply Chain: Nigeria 2025"),
        "ai-supply-chain-nigeria-2025"
    );
}

#[test]
fn slugs_are_fixed_points() {
    for t in ["", "--", "Ünïcode Title", "a--b", "  Already-a-slug  "] {
        let once = slugify(t);
        assert_eq!(slugify(&once), once);
    }
    assert_eq!(slugify("Ünïcode Title"), "n-code-title");
    assert_eq!(slugify("?!"), "");
}

#[test]
fn normalize_section_prepends_heading() {
    let normalized = normalize_section_markdown("This is the body.", "Introduction");
    assert!(normalized.starts_with("## Introduction"));
    assert!(normalized.contains("This is the body."));
}

#[test]
fn normalize_section_replaces_other_headings() {
    assert_eq!(
        normalize_section_markdown("# Introduction\nBody", "Introduction"),
        "## Introduction\n\nBody"
    );
    assert_eq!(
        normalize_section_markdown("Introduction  Body", "Introduction"),
        "## Introduction\n\nBody"
    );
    assert_eq!(
        normalize_section_markdown("```markdown\n## Introduction\n\nBody\n```", "Introduction"),
        "## Introduction\n\nBody"
    );
}

#[test]
fn normalize_section_part_strips_accidental_headings() {
    let normalized = normalize_section_part("### Subheading\n\nThis is the actual prose.");
    assert_eq!(normalized, "This is the actual prose.");
}

#[test]
fn section_part_of_headings_alone_stays() {
    assert_eq!(normalize_section_part("# A\nSection: B"), "# A\nSection: B");
}

#[test]
fn convert_outline_fragment_to_prose_flattens_bullets() {
    let converted = convert_outline_fragment_to_prose(
        "- Context: AI improves forecasting\n- Benefit: Firms react faster to demand shifts",
    );
    assert!(!converted.contains("- "));
    assert!(converted.contains("AI improves forecasting."));
    assert!(converted.contains("Firms react faster to demand shifts."));
}

#[test]
fn outline_becomes_paragraphs() {
    let converted = convert_outline_fragment_to_prose(
        "1. **Theme 1:** Growth is uneven\n2. Is it lasting?\n\nWord count check: 40\n* Wait, that is wrong\n- Source 3: Costs fall!",
    );
    assert_eq!(converted, "Growth is uneven. Is it lasting?\n\n40.\n\nCosts fall!");
}

#[test]
fn prose_is_only_trimmed() {
    assert_eq!(
        convert_outline_fragment_to_prose("  Plain prose\nover two lines \n"),
        "Plain prose\nover two lines"
    );
}

#[test]
fn convert_outline_section_to_prose_preserves_main_heading() {
    let converted = convert_outline_section_to_prose(
        "## Introduction\n\n- Context: AI improves forecasting",
        "Introduction",
    );
    assert!(converted.starts_with("## Introduction"));
    assert!(converted.contains("AI improves forecasting."));
}

#[test]
fn assemble_section_from_parts_wraps_fragments_under_main_heading() {
    let assembled = assemble_section_from_parts(
        "Introduction",
        &vec![
            "First paragraph.".to_string(),
            "Second paragraph.".to_string(),
        ],
    );
    assert!(assembled.starts_with("## Introduction"));
    assert!(assembled.contains("First paragraph."));
    assert!(assembled.contains("Second paragraph."));
}

#[test]
fn empty_parts_leave_the_heading() {
    assert_eq!(
        assemble_section_from_parts("Methodology", &vec![" \n".to_string(), String::new()]),
        "## Methodology"
    );
    assert_eq!(
        assemble_section_from_parts("M", &vec![" a ".to_string(), " ".to_string(), "b".to_string()]),
        "## M\n\na\n\nb"
    );
}

#[test]
fn page_estimate_rounds_up() {
    assert_eq!(estimate_page_count(1), 1);
    assert_eq!(estimate_page_count(500), 1);
    assert_eq!(estimate_page_count(501), 2);
}

#[test]
fn page_estimate_is_never_nothing() {
    assert_eq!(estimate_page_count(0), 1);
    assert_eq!(estimate_page_count(usize::MAX), usize::MAX.div_ceil(500));
}

#[test]
fn citations_need_a_letter_and_a_digit_or_comma() {
    assert_eq!(count_citation_mentions("(Ada, 2024) and (2024) and (see) and (Émile, n.d.)"), 2);
    assert_eq!(count_citation_mentions("((Ada 1))"), 1);
    assert_eq!(count_citation_mentions("(open, 2024"), 0);
    assert_eq!(count_citation_mentions("(a (b, 1) c)"), 1);
    assert_eq!(count_citation_mentions("(日本, 1) and (—, 1)"), 1);
}

#[test]
fn references_stand_under_their_heading() {
    assert_eq!(
        normalize_references_section("Ada, A. (2024).", &ReferenceStyle::Mla),
        "## Works Cited\n\nAda, A. (2024)."
    );
    assert_eq!(
        normalize_references_section("```\n## References\n\nX\n```", &ReferenceStyle::Apa),
        "## References\n\nX"
    );
}

#[test]
fn preview_leaves_the_heading_out() {
    assert_eq!(section_body_preview("## Abstract\n\nOne line\nand another", 900), "One line and another");
    assert_eq!(section_body_preview("## A\n\nshort words here", 12), "short words...");
}

#[test]
fn fences_are_removed() {
    assert_eq!(strip_code_fences("```json\n{\"a\":1}\n```"), "{\"a\":1}");
    assert_eq!(strip_code_fences("  ```markdown\nText```  "), "Text");
}
